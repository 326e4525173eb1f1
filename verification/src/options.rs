//! Options of a session.

use vstd::prelude::*;

use crate::chain::ShardIdent;
use crate::time::{TimeSpan, NANOS_PER_MILLI};

verus! {

/// Nanoseconds in a second.
pub const NANOS_PER_SEC: u128 = 1_000_000_000;

/// A number in IEEE 754 double precision, by its 64 bits.
#[derive(Clone, Copy, Debug, PartialEq, Eq, Structural)]
pub struct DoubleBits(pub u64);

/// Bits of the number one.
pub const DOUBLE_ONE: u64 = 0x3ff0_0000_0000_0000;

/// Bits of positive infinity; the bits above are those of no number, up to the
/// sign bit.
pub const DOUBLE_INFINITY: u64 = 0x7ff0_0000_0000_0000;

/// The sign bit.
pub const DOUBLE_SIGN: u64 = 0x8000_0000_0000_0000;

impl DoubleBits {
    /// Whether the bits stand for a number below one.
    ///
    /// Numbers without sign are ordered as their bits are; all numbers with a
    /// sign are below one; what is no number is not below one.
    pub open spec fn below_one(self) -> bool {
        if self.0 < DOUBLE_SIGN {
            self.0 < DOUBLE_ONE
        } else {
            self.0 - DOUBLE_SIGN <= DOUBLE_INFINITY
        }
    }

    /// Whether the bits stand for a number below one.
    pub fn is_below_one(&self) -> (r: bool)
        ensures
            r == self.below_one(),
    {
        if self.0 < DOUBLE_SIGN {
            self.0 < DOUBLE_ONE
        } else {
            self.0 - DOUBLE_SIGN <= DOUBLE_INFINITY
        }
    }
}

/// How finalized blocks are replayed when a session restarts.
#[derive(Clone, Copy, Debug, PartialEq, Eq, Structural)]
pub enum RestartRecommitStrategy {
    /// The stored finalized chain is replayed in order.
    FullReplay,
    /// Nothing is replayed; the first commit is that of a new block.
    FirstCommitAfterFinalized,
}

impl Default for RestartRecommitStrategy {
    fn default() -> (r: Self)
        ensures
            r == RestartRecommitStrategy::FullReplay,
    {
        RestartRecommitStrategy::FullReplay
    }
}

/// Options of a session.
#[derive(Clone, Copy, Debug, PartialEq, Eq, Structural)]
pub struct SessionOptions {
    /// Protocol version.
    pub proto_version: u32,
    /// Factor by which timeouts grow.
    pub timeout_increase_factor: DoubleBits,
    /// Longest delay that timeouts grow to.
    pub max_backoff_delay: TimeSpan,
    /// Slots that a leader has in a row.
    pub slots_per_leader_window: u32,
    /// Time between blocks.
    pub target_rate: TimeSpan,
    /// Timeout of the first block in a window.
    pub first_block_timeout: TimeSpan,
    /// Largest block, in bytes.
    pub max_block_size: usize,
    /// Largest collated data, in bytes.
    pub max_collated_data_size: usize,
    /// Whether callbacks run in a thread of their own.
    pub use_callback_thread: bool,
    /// How often a validation is tried again.
    pub validation_retry_attempts: u32,
    /// Time between two validations.
    pub validation_retry_timeout: TimeSpan,
    /// Time between two collations.
    pub collation_retry_timeout: TimeSpan,
    /// How often a collation is tried again.
    pub collation_retry_max_attempts: u32,
    /// Blocks collated ahead of their slot.
    pub max_precollated_blocks: u32,
    /// Time without finalization after which votes are sent again.
    pub standstill_timeout: TimeSpan,
    /// How far the masterchain may be behind before a shard makes empty blocks.
    pub empty_block_mc_lag_threshold: Option<u32>,
    /// Whether creating a session waits for its database.
    pub wait_for_db_init: bool,
    /// How finalized blocks are replayed on restart.
    pub restart_recommit_strategy: RestartRecommitStrategy,
    /// Whether the overlay uses QUIC.
    pub use_quic: bool,
    /// Time between two alerts of one kind.
    pub health_alert_cooldown: TimeSpan,
    /// Seconds without finalization that give a warning.
    pub health_stall_warning_secs: u64,
    /// Seconds without finalization that give an error.
    pub health_stall_error_secs: u64,
    /// Seconds that a parent may stay unresolved before a warning.
    pub health_parent_aging_warning_secs: u64,
    /// Seconds that a parent may stay unresolved before an error.
    pub health_parent_aging_error_secs: u64,
}

/// Why options cannot be used.
#[derive(Clone, Copy, Debug, PartialEq, Eq, Structural)]
pub enum OptionsError {
    /// A leader has no slots.
    SlotsPerLeaderWindow,
    /// Timeouts would shrink.
    TimeoutIncreaseFactor,
    /// No time between blocks.
    TargetRate,
    /// No block fits.
    MaxBlockSize,
    /// No collated data fits.
    MaxCollatedDataSize,
    /// Timeouts cannot grow.
    MaxBackoffDelay,
    /// The first block has no time.
    FirstBlockTimeout,
    /// No time between two collations.
    CollationRetryTimeout,
    /// Blocks would be collated ahead of their slot.
    MaxPrecollatedBlocks,
    /// No time between two alerts.
    HealthAlertCooldown,
    /// A stall is a warning at once.
    HealthStallWarning,
    /// A stall is an error before it is a warning.
    HealthStallError,
    /// An unresolved parent is a warning at once.
    HealthParentAgingWarning,
    /// An unresolved parent is an error before it is a warning.
    HealthParentAgingError,
    /// A masterchain session cannot be behind the masterchain.
    EmptyBlockMcLagThreshold(u32),
}

impl SessionOptions {
    /// The first reason why the options cannot be used.
    pub open spec fn fault(self) -> Option<OptionsError> {
        if self.slots_per_leader_window == 0 {
            Some(OptionsError::SlotsPerLeaderWindow)
        } else if self.timeout_increase_factor.below_one() {
            Some(OptionsError::TimeoutIncreaseFactor)
        } else if self.target_rate.nanos == 0 {
            Some(OptionsError::TargetRate)
        } else if self.max_block_size == 0 {
            Some(OptionsError::MaxBlockSize)
        } else if self.max_collated_data_size == 0 {
            Some(OptionsError::MaxCollatedDataSize)
        } else if self.max_backoff_delay.nanos == 0 {
            Some(OptionsError::MaxBackoffDelay)
        } else if self.first_block_timeout.nanos == 0 {
            Some(OptionsError::FirstBlockTimeout)
        } else if self.collation_retry_timeout.nanos == 0 {
            Some(OptionsError::CollationRetryTimeout)
        } else if self.max_precollated_blocks != 0 {
            Some(OptionsError::MaxPrecollatedBlocks)
        } else if self.health_alert_cooldown.nanos == 0 {
            Some(OptionsError::HealthAlertCooldown)
        } else if self.health_stall_warning_secs == 0 {
            Some(OptionsError::HealthStallWarning)
        } else if self.health_stall_error_secs < self.health_stall_warning_secs {
            Some(OptionsError::HealthStallError)
        } else if self.health_parent_aging_warning_secs == 0 {
            Some(OptionsError::HealthParentAgingWarning)
        } else if self.health_parent_aging_error_secs < self.health_parent_aging_warning_secs {
            Some(OptionsError::HealthParentAgingError)
        } else {
            None
        }
    }

    /// The first reason why the options cannot be used in `shard`.
    pub open spec fn fault_in(self, shard: ShardIdent) -> Option<OptionsError> {
        match self.fault() {
            Some(e) => Some(e),
            None => match self.empty_block_mc_lag_threshold {
                Some(threshold) if shard.masterchain() => Some(
                    OptionsError::EmptyBlockMcLagThreshold(threshold),
                ),
                _ => None,
            },
        }
    }

    /// The options of a session that sets none.
    pub open spec fn defaults(self) -> bool {
        &&& self.proto_version == 0
        &&& self.timeout_increase_factor == DoubleBits(0x3ff0_cccc_cccc_cccd)
        &&& self.max_backoff_delay.nanos == 100 * NANOS_PER_SEC
        &&& self.slots_per_leader_window == 1
        &&& self.target_rate.nanos == NANOS_PER_SEC
        &&& self.first_block_timeout.nanos == 3 * NANOS_PER_SEC
        &&& self.max_block_size == 4_194_304
        &&& self.max_collated_data_size == 4_194_304
        &&& self.use_callback_thread
        &&& self.validation_retry_attempts == 0
        &&& self.validation_retry_timeout.nanos == NANOS_PER_SEC
        &&& self.collation_retry_timeout.nanos == 500 * NANOS_PER_MILLI
        &&& self.collation_retry_max_attempts == 3
        &&& self.max_precollated_blocks == 0
        &&& self.standstill_timeout.nanos == 10 * NANOS_PER_SEC
        &&& self.empty_block_mc_lag_threshold is None
        &&& !self.wait_for_db_init
        &&& self.restart_recommit_strategy == RestartRecommitStrategy::FullReplay
        &&& !self.use_quic
        &&& self.health_alert_cooldown.nanos == 30 * NANOS_PER_SEC
        &&& self.health_stall_warning_secs == 15
        &&& self.health_stall_error_secs == 60
        &&& self.health_parent_aging_warning_secs == 30
        &&& self.health_parent_aging_error_secs == 120
    }

    /// Checks the options and names the first that cannot be used.
    pub fn validate(&self) -> (r: Result<(), OptionsError>)
        ensures
            match self.fault() {
                Some(e) => r == Err::<(), OptionsError>(e),
                None => r is Ok,
            },
    {
        if self.slots_per_leader_window == 0 {
            return Err(OptionsError::SlotsPerLeaderWindow);
        }
        if self.timeout_increase_factor.is_below_one() {
            return Err(OptionsError::TimeoutIncreaseFactor);
        }
        if self.target_rate.is_zero() {
            return Err(OptionsError::TargetRate);
        }
        if self.max_block_size == 0 {
            return Err(OptionsError::MaxBlockSize);
        }
        if self.max_collated_data_size == 0 {
            return Err(OptionsError::MaxCollatedDataSize);
        }
        if self.max_backoff_delay.is_zero() {
            return Err(OptionsError::MaxBackoffDelay);
        }
        if self.first_block_timeout.is_zero() {
            return Err(OptionsError::FirstBlockTimeout);
        }
        if self.collation_retry_timeout.is_zero() {
            return Err(OptionsError::CollationRetryTimeout);
        }
        if self.max_precollated_blocks != 0 {
            return Err(OptionsError::MaxPrecollatedBlocks);
        }
        if self.health_alert_cooldown.is_zero() {
            return Err(OptionsError::HealthAlertCooldown);
        }
        if self.health_stall_warning_secs == 0 {
            return Err(OptionsError::HealthStallWarning);
        }
        if self.health_stall_error_secs < self.health_stall_warning_secs {
            return Err(OptionsError::HealthStallError);
        }
        if self.health_parent_aging_warning_secs == 0 {
            return Err(OptionsError::HealthParentAgingWarning);
        }
        if self.health_parent_aging_error_secs < self.health_parent_aging_warning_secs {
            return Err(OptionsError::HealthParentAgingError);
        }
        Ok(())
    }

    /// Checks the options for a session of `shard`.
    pub fn validate_for_shard(&self, shard: &ShardIdent) -> (r: Result<(), OptionsError>)
        ensures
            match self.fault_in(*shard) {
                Some(e) => r == Err::<(), OptionsError>(e),
                None => r is Ok,
            },
    {
        match self.validate() {
            Err(e) => Err(e),
            Ok(()) => match self.empty_block_mc_lag_threshold {
                Some(threshold) => if shard.is_masterchain() {
                    Err(OptionsError::EmptyBlockMcLagThreshold(threshold))
                } else {
                    Ok(())
                },
                None => Ok(()),
            },
        }
    }
}

impl Default for SessionOptions {
    fn default() -> (r: Self)
        ensures
            r.defaults(),
    {
        SessionOptions {
            proto_version: 0,
            timeout_increase_factor: DoubleBits(0x3ff0_cccc_cccc_cccd),
            max_backoff_delay: TimeSpan::from_millis(100_000),
            slots_per_leader_window: 1,
            target_rate: TimeSpan::from_millis(1_000),
            first_block_timeout: TimeSpan::from_millis(3_000),
            max_block_size: 4_194_304,
            max_collated_data_size: 4_194_304,
            use_callback_thread: true,
            validation_retry_attempts: 0,
            validation_retry_timeout: TimeSpan::from_millis(1_000),
            collation_retry_timeout: TimeSpan::from_millis(500),
            collation_retry_max_attempts: 3,
            max_precollated_blocks: 0,
            standstill_timeout: TimeSpan::from_millis(10_000),
            empty_block_mc_lag_threshold: None,
            wait_for_db_init: false,
            restart_recommit_strategy: RestartRecommitStrategy::default(),
            use_quic: false,
            health_alert_cooldown: TimeSpan::from_millis(30_000),
            health_stall_warning_secs: 15,
            health_stall_error_secs: 60,
            health_parent_aging_warning_secs: 30,
            health_parent_aging_error_secs: 120,
        }
    }
}

/// The default options can be used in every shard.
pub proof fn defaults_are_valid(options: SessionOptions, shard: ShardIdent)
    requires
        options.defaults(),
    ensures
        options.fault_in(shard) is None,
{
}

/// Options that can be used leave a leader at least one slot, and some time
/// between blocks.
pub proof fn valid_options_make_progress(options: SessionOptions, shard: ShardIdent)
    requires
        options.fault_in(shard) is None,
    ensures
        options.slots_per_leader_window > 0,
        options.target_rate.nanos > 0,
        options.max_block_size > 0,
        shard.masterchain() ==> options.empty_block_mc_lag_threshold is None,
{
}

/// Options can be used exactly if a leader has slots, timeouts do not shrink, there
/// is time between blocks, for the first block, between two collations and between
/// two alerts, blocks and collated data fit, timeouts can grow, nothing is collated
/// ahead, and warnings come neither at once nor after errors. Each error names an
/// option that cannot be used.
pub proof fn usable_options_are_accepted(options: SessionOptions)
    ensures
        options.fault() is None <==> {
            &&& options.slots_per_leader_window > 0
            &&& !options.timeout_increase_factor.below_one()
            &&& options.target_rate.nanos > 0
            &&& options.max_block_size > 0
            &&& options.max_collated_data_size > 0
            &&& options.max_backoff_delay.nanos > 0
            &&& options.first_block_timeout.nanos > 0
            &&& options.collation_retry_timeout.nanos > 0
            &&& options.max_precollated_blocks == 0
            &&& options.health_alert_cooldown.nanos > 0
            &&& 0 < options.health_stall_warning_secs <= options.health_stall_error_secs
            &&& 0 < options.health_parent_aging_warning_secs
                <= options.health_parent_aging_error_secs
        },
        match options.fault() {
            None => true,
            Some(OptionsError::SlotsPerLeaderWindow) => options.slots_per_leader_window == 0,
            Some(OptionsError::TimeoutIncreaseFactor) =>
                options.timeout_increase_factor.below_one(),
            Some(OptionsError::TargetRate) => options.target_rate.nanos == 0,
            Some(OptionsError::MaxBlockSize) => options.max_block_size == 0,
            Some(OptionsError::MaxCollatedDataSize) => options.max_collated_data_size == 0,
            Some(OptionsError::MaxBackoffDelay) => options.max_backoff_delay.nanos == 0,
            Some(OptionsError::FirstBlockTimeout) => options.first_block_timeout.nanos == 0,
            Some(OptionsError::CollationRetryTimeout) => options.collation_retry_timeout.nanos == 0,
            Some(OptionsError::MaxPrecollatedBlocks) => options.max_precollated_blocks != 0,
            Some(OptionsError::HealthAlertCooldown) => options.health_alert_cooldown.nanos == 0,
            Some(OptionsError::HealthStallWarning) => options.health_stall_warning_secs == 0,
            Some(OptionsError::HealthStallError) => options.health_stall_error_secs
                < options.health_stall_warning_secs,
            Some(OptionsError::HealthParentAgingWarning) => options.health_parent_aging_warning_secs
                == 0,
            Some(OptionsError::HealthParentAgingError) => options.health_parent_aging_error_secs
                < options.health_parent_aging_warning_secs,
            Some(OptionsError::EmptyBlockMcLagThreshold(_)) => false,
        },
{
}

/// In a shard other than the masterchain the options that can be used are the same
/// ones; in the masterchain, those of them that set no threshold for empty blocks.
pub proof fn thresholds_are_for_shards(options: SessionOptions, shard: ShardIdent)
    ensures
        options.fault_in(shard) is None <==> options.fault() is None && !(shard.masterchain()
            && options.empty_block_mc_lag_threshold is Some),
        options.fault() is Some ==> options.fault_in(shard) == options.fault(),
        options.fault_in(shard) matches Some(OptionsError::EmptyBlockMcLagThreshold(n)) ==> {
            &&& shard.masterchain()
            &&& options.empty_block_mc_lag_threshold == Some(n)
        },
{
}

/// Factors are told apart as the numbers that they stand for: one and all larger
/// ones, infinity among them, are not below one; all smaller ones are, and so are
/// all with a sign, down to negative infinity; and what is no number is not.
pub proof fn factors_are_ordered(bits: DoubleBits)
    ensures
        bits.0 < 0x3ff0_0000_0000_0000 ==> bits.below_one(),
        0x3ff0_0000_0000_0000 <= bits.0 < 0x8000_0000_0000_0000 ==> !bits.below_one(),
        0x8000_0000_0000_0000 <= bits.0 <= 0xfff0_0000_0000_0000 ==> bits.below_one(),
        0xfff0_0000_0000_0000 < bits.0 ==> !bits.below_one(),
{
}

} // verus!
