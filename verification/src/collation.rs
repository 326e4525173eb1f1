//! What collating a block needs: its inputs, its timing and its deadlines.

use vstd::prelude::*;

use crate::assoc::{lookup, AssocMap};
use crate::block::{BlockSourceInfo, CandidateParentInfo, RawCandidateId, SlotIndex, WindowIndex};
use crate::candidate_book::CandidateBook;
use crate::chain::BlockIdExt;
use crate::consensus_controller::{ConsensusController, KeySet};
use crate::session_description::SessionDescription;
use crate::time::{TimePoint, TimeSpan};

verus! {

/// A generation that takes longer is slow: one second, in nanoseconds.
pub const MAX_GENERATION_TIME: u128 = 1_000_000_000;

/// Time between a failed collation and its restart: a tenth of a second, in
/// nanoseconds.
pub const COLLATION_ERROR_RESTART_BACKOFF: u128 = 100_000_000;

/// A block as the collator hands it over.
#[derive(Debug)]
pub struct CollatedBlock {
    pub id: BlockIdExt,
    pub data: Vec<u8>,
    pub collated_data: Vec<u8>,
}

/// What a collation gave.
#[derive(Debug)]
pub enum CollationResult {
    /// A block with transactions.
    Block(CollatedBlock),
    /// No block of its own: the block of the parent is signed again.
    Empty { parent_block_id: BlockIdExt },
}

/// Cutoffs of a collation; they stay the same when it is restarted.
#[derive(Clone, Copy, Debug, PartialEq, Eq, Structural)]
pub struct CollationDeadlineContext {
    /// When the collator stops taking in messages.
    pub soft_deadline: TimePoint,
    /// When the collation is given up: no later than the end of its window.
    pub hard_deadline: TimePoint,
    /// When the time for taking in messages starts to run.
    pub budget_anchor: TimePoint,
}

/// A collation that is asked for, with its result once it has one.
#[derive(Debug)]
pub struct PrecollatedBlock {
    /// Number of the request.
    pub request_id: u32,
    /// The result, once it is there.
    pub result: Option<CollationResult>,
    /// The parent, as it was when the collation began.
    pub parent: Option<CandidateParentInfo>,
}

/// The last candidate that was made in a leader window.
#[derive(Clone, Copy, Debug, PartialEq, Eq, Structural)]
pub struct LocalChainHead {
    pub window: WindowIndex,
    pub slot: SlotIndex,
    /// The candidate, as the parent of the next one.
    pub parent_info: CandidateParentInfo,
    /// When its block was generated, in milliseconds, if known.
    pub gen_utime_ms: Option<u64>,
}

/// The collation that is running.
#[derive(Clone, Copy, Debug, PartialEq, Eq, Structural)]
pub struct RealCollationState {
    /// Window that it runs for.
    pub window: WindowIndex,
    /// Slot that it was asked for.
    pub slot_dispatched: SlotIndex,
    /// Number of its request.
    pub request_id: u32,
    /// When the next slot begins, if the collation still runs by then.
    pub next_slot_deadline: TimePoint,
    pub deadlines: CollationDeadlineContext,
}

/// When a collation is asked for, and when its block may be generated.
#[derive(Clone, Copy, Debug, PartialEq, Eq, Structural)]
pub struct CollationTiming {
    /// When the collator is due to be asked.
    pub dispatch_time: TimePoint,
    /// Earliest generation time of the block.
    pub min_gen_time: TimePoint,
    /// How long before that the collator may be asked.
    pub start_collate_before: TimeSpan,
    /// When the parent was generated, in milliseconds, if known.
    pub parent_gen_utime_ms: Option<u64>,
}

/// The blocks that a new block follows.
#[derive(Clone, Copy, Debug, PartialEq, Eq, Structural)]
pub enum PrevBlocks {
    /// The block of the parent candidate.
    Parent(BlockIdExt),
    /// The blocks that the session starts from.
    SessionStart,
}

/// A collation that can begin.
#[derive(Clone, Copy, Debug, PartialEq, Eq, Structural)]
pub struct PreparedCollation {
    pub prev_blocks: PrevBlocks,
    pub timing: CollationTiming,
    pub new_seqno: u32,
    pub is_first_session_block: bool,
}

/// Whether a collation can begin.
#[derive(Clone, Copy, Debug, PartialEq, Eq, Structural)]
pub enum CollationPreparation {
    Ready(PreparedCollation),
    /// Not before the given time.
    Deferred(TimePoint),
    /// Not before the block of the parent is known.
    WaitingForParent,
}

/// Why tracking of a collation ends without a block.
#[derive(Clone, Copy, Debug, PartialEq, Eq, Structural)]
pub enum ForgetReason {
    PipelineReset,
    StaleWindowCleared,
    StaleWindowResult,
    MissingEntry,
    Cancelled,
}

/// A request to the collator.
#[derive(Clone, Copy, Debug, PartialEq, Eq, Structural)]
pub struct GenerateRequest {
    pub slot: SlotIndex,
    pub request_id: u32,
    /// The local validator.
    pub source: BlockSourceInfo,
    pub parent: Option<CandidateParentInfo>,
    pub prev_blocks: PrevBlocks,
    pub new_seqno: u32,
    pub min_gen_time: TimePoint,
    pub deadlines: CollationDeadlineContext,
}

/// What the pipeline asks of its surroundings.
#[derive(Clone, Copy, Debug, PartialEq, Eq, Structural)]
pub enum CollationAction {
    /// Look at collation again at this time.
    WakeAt(TimePoint),
    /// Ask the collator for a block.
    Generate(GenerateRequest),
    /// Cancel a request to the collator.
    Cancel(u32),
    /// Fetch the parent from other validators.
    RequestParent(RawCandidateId),
    /// Note whether generation for a slot is under way.
    SetPending(SlotIndex, bool),
    /// Note that a candidate was generated for a slot.
    SetGenerated(SlotIndex),
    /// Note that the candidate of a slot was sent.
    SetSent(SlotIndex),
    /// End tracking of the collation for a slot.
    Forget(SlotIndex, ForgetReason),
    /// Report at this time that a slot of the running collation ended.
    SlotWake(SlotIndex, u32, TimePoint),
    /// Restart the collation of a slot at this time.
    Restart(SlotIndex, Option<CollationDeadlineContext>, TimePoint),
    /// Store what the hash of a new candidate was computed from.
    Persist(RawCandidateId),
    /// Send a new candidate to the other validators.
    Broadcast(RawCandidateId),
    /// Take in a new candidate as if another validator had sent it.
    SelfReceive(RawCandidateId),
}

/// A candidate to be built and signed.
#[derive(Debug)]
pub struct PublishRequest {
    pub slot: SlotIndex,
    pub parent: Option<CandidateParentInfo>,
    pub result: CollationResult,
    /// Slot of the collation that the candidate comes from, if it is not a filler.
    pub funnel_slot: Option<SlotIndex>,
    /// Slot to collate for once the candidate is out.
    pub next: Option<SlotIndex>,
}

/// A state that the pipeline must not come to.
#[derive(Clone, Copy, Debug, PartialEq, Eq, Structural)]
pub enum CollationBreach {
    /// Slots are used up.
    SlotOverflow,
    /// Seqnos are used up.
    SeqnoOverflow,
    /// Request numbers are used up.
    RequestIdOverflow,
    /// A block was asked for before one of an earlier slot.
    SlotsOutOfOrder,
    /// The first block of a session would be empty.
    EmptyFirstBlock,
    /// A block was asked for a slot that consensus is done with.
    ProgressedSlot,
    /// A block would follow none or more than two blocks.
    PreviousBlocks,
}

/// Options of collation.
#[derive(Clone, Copy, Debug, PartialEq, Eq, Structural)]
pub struct CollationOptions {
    /// Time between blocks.
    pub target_rate: TimeSpan,
    /// Time without finalization after which no empty blocks are made.
    pub no_empty_blocks_on_error_timeout: TimeSpan,
    /// How far the masterchain may be behind before a shard makes empty blocks.
    pub empty_block_mc_lag_threshold: Option<u32>,
    /// Largest block, in bytes.
    pub max_block_size: usize,
    /// Largest collated data, in bytes.
    pub max_collated_data_size: usize,
}

/// What collation reads of the rest of the session.
pub struct CollationInputs<'a> {
    pub now: TimePoint,
    /// First slot that consensus is not done with.
    pub first_non_progressed: SlotIndex,
    /// Current leader window.
    pub window: WindowIndex,
    /// Parents that slots can build on; `None` stands for the session's start.
    pub available: &'a AssocMap<SlotIndex, Option<CandidateParentInfo>>,
    /// The candidate book.
    pub book: &'a CandidateBook,
    /// State of finalization.
    pub consensus: &'a ConsensusController,
    /// Slots with a generated candidate.
    pub generated: &'a KeySet<SlotIndex>,
    /// Slots whose generation is under way.
    pub pending: &'a KeySet<SlotIndex>,
    /// Blocks that the session starts from.
    pub session_start: &'a Vec<BlockIdExt>,
    pub desc: &'a SessionDescription,
    pub opts: &'a CollationOptions,
}

/// The largest seqno of `blocks`, or zero.
pub open spec fn max_seqno(blocks: Seq<BlockIdExt>) -> u32
    decreases blocks.len(),
{
    if blocks.len() == 0 {
        0
    } else if max_seqno(blocks.drop_last()) < blocks.last().seq_no {
        blocks.last().seq_no
    } else {
        max_seqno(blocks.drop_last())
    }
}

impl<'a> CollationInputs<'a> {
    /// Time of the next block.
    pub open spec fn next_block_time(self) -> TimePoint {
        self.now.plus_or_same(self.opts.target_rate)
    }

    /// Whether `slot` lies in the current leader window.
    pub open spec fn in_window(self, slot: SlotIndex) -> bool {
        self.desc.window(slot) == self.window
    }

    /// Whether the local validator leads `slot`.
    pub open spec fn leads(self, slot: SlotIndex) -> bool {
        self.desc.leader(slot) == self.desc.local()
    }

    /// The parent that `slot` can build on.
    pub open spec fn available_parent(self, slot: SlotIndex) -> Option<CandidateParentInfo> {
        match lookup(self.available@, slot) {
            Some(parent) => parent,
            None => None,
        }
    }

    /// The blocks that a new block follows.
    pub open spec fn prev_block_ids(self, prev: PrevBlocks) -> Seq<BlockIdExt> {
        match prev {
            PrevBlocks::Parent(id) => seq![id],
            PrevBlocks::SessionStart => self.session_start@,
        }
    }

    /// Whether the shard splits after a block, if known.
    pub open spec fn before_split_flag(self, block: BlockIdExt) -> Option<bool> {
        match lookup(self.consensus@.before_split, block) {
            Some(flag) => Some(flag),
            None => if self.consensus@.head_block == Some(block) {
                Some(self.consensus@.head_before_split)
            } else {
                None
            },
        }
    }

    /// Whether the new block with this seqno must be empty.
    pub open spec fn must_be_empty(self, new_seqno: u32, parent_before_split: Option<bool>) -> bool {
        let splits = match parent_before_split {
            Some(flag) => flag,
            None => self.consensus@.head_before_split,
        };
        if splits {
            true
        } else if self.desc.shard_ident().masterchain() {
            match self.consensus@.last_consensus {
                Some(finalized) => finalized + 1 < new_seqno,
                None => false,
            }
        } else {
            match (self.consensus@.last_mc, self.opts.empty_block_mc_lag_threshold) {
                (Some(finalized), Some(threshold)) => finalized + threshold < new_seqno,
                _ => false,
            }
        }
    }

    /// Time of the next block.
    pub fn get_next_block_time(&self) -> (r: TimePoint)
        ensures
            r == self.next_block_time(),
    {
        self.now.add_or_same(self.opts.target_rate)
    }

    /// The parent that `slot` can build on.
    pub fn get_available_parent(&self, slot: SlotIndex) -> (r: Option<CandidateParentInfo>)
        ensures
            r == self.available_parent(slot),
    {
        match self.available.get(&slot) {
            Some(parent) => *parent,
            None => None,
        }
    }

    /// The blocks that a new block follows.
    pub fn get_prev_block_ids(&self, prev: &PrevBlocks) -> (r: Vec<BlockIdExt>)
        ensures
            r@ == self.prev_block_ids(*prev),
    {
        match prev {
            PrevBlocks::Parent(id) => {
                let mut ids: Vec<BlockIdExt> = Vec::new();
                ids.push(*id);
                assert(ids@ =~= seq![*id]);
                ids
            },
            PrevBlocks::SessionStart => {
                let mut ids: Vec<BlockIdExt> = Vec::new();
                let mut i: usize = 0;
                while i < self.session_start.len()
                    invariant
                        i <= self.session_start@.len(),
                        ids@ == self.session_start@.take(i as int),
                    decreases self.session_start@.len() - i,
                {
                    ids.push(self.session_start[i]);
                    assert(self.session_start@.take(i as int + 1) =~= self.session_start@.take(
                        i as int,
                    ).push(self.session_start@[i as int]));
                    i += 1;
                }
                assert(ids@ =~= self.session_start@);
                ids
            },
        }
    }

    /// How many blocks a new block follows, and the largest of their seqnos.
    pub fn survey_prev_blocks(&self, prev: &PrevBlocks) -> (r: (usize, u32))
        ensures
            r.0 == self.prev_block_ids(*prev).len(),
            r.1 == max_seqno(self.prev_block_ids(*prev)),
    {
        match prev {
            PrevBlocks::Parent(id) => {
                assert(seq![*id].drop_last() =~= Seq::<BlockIdExt>::empty());
                assert(max_seqno(seq![*id]) == id.seq_no) by {
                    reveal_with_fuel(max_seqno, 2);
                }
                (1, id.seq_no)
            },
            PrevBlocks::SessionStart => {
                let mut largest: u32 = 0;
                let mut i: usize = 0;
                while i < self.session_start.len()
                    invariant
                        i <= self.session_start@.len(),
                        largest == max_seqno(self.session_start@.take(i as int)),
                    decreases self.session_start@.len() - i,
                {
                    assert(self.session_start@.take(i as int + 1).drop_last()
                        =~= self.session_start@.take(i as int));
                    if largest < self.session_start[i].seq_no {
                        largest = self.session_start[i].seq_no;
                    }
                    i += 1;
                }
                assert(self.session_start@.take(i as int) =~= self.session_start@);
                (self.session_start.len(), largest)
            },
        }
    }

    /// Whether the shard splits after a block, if known.
    pub fn get_before_split_flag(&self, block: &BlockIdExt) -> (r: Option<bool>)
        ensures
            r == self.before_split_flag(*block),
    {
        match self.consensus.before_split_by_block_id(block) {
            Some(flag) => Some(flag),
            None => match self.consensus.finalized_head_block_id() {
                Some(head) => if *head == *block {
                    Some(self.consensus.finalized_head_before_split())
                } else {
                    None
                },
                None => None,
            },
        }
    }

    /// Whether the new block with this seqno must be empty: because the shard
    /// splits after its parent, or because finalization is behind.
    pub fn should_generate_empty_block(
        &self,
        new_seqno: u32,
        parent_before_split: Option<bool>,
    ) -> (r: bool)
        ensures
            r == self.must_be_empty(new_seqno, parent_before_split),
    {
        let splits: bool = match parent_before_split {
            Some(flag) => flag,
            None => self.consensus.finalized_head_before_split(),
        };
        if splits {
            return true;
        }
        if self.desc.get_shard().is_masterchain() {
            match self.consensus.last_consensus_finalized_seqno() {
                Some(finalized) => finalized as u64 + 1 < new_seqno as u64,
                None => false,
            }
        } else {
            match (
                self.consensus.last_mc_finalized_seqno(),
                self.opts.empty_block_mc_lag_threshold,
            ) {
                (Some(finalized), Some(threshold)) => finalized as u64 + (threshold as u64) < (
                new_seqno as u64),
                _ => false,
            }
        }
    }
}

/// How many slots of its window are left from `slot` on.
pub open spec fn slots_left(slot: SlotIndex, slots_per_leader_window: u32) -> int {
    let len: int = if slots_per_leader_window == 0 {
        1
    } else {
        slots_per_leader_window as int
    };
    len - slot.0 as int % len
}

/// Cutoffs of a collation for `slot` whose block may be generated from
/// `min_gen_time` on: the soft one in a masterchain a block's time later, else
/// at once; the hard one at the end of the leader window.
pub open spec fn deadlines_of(
    slot: SlotIndex,
    min_gen_time: TimePoint,
    target_rate: TimeSpan,
    slots_per_leader_window: u32,
    is_masterchain: bool,
) -> (TimePoint, TimePoint) {
    let left = slots_left(slot, slots_per_leader_window);
    (
        if is_masterchain {
            min_gen_time.plus_or_same(target_rate)
        } else {
            min_gen_time
        },
        min_gen_time.plus_or_same(target_rate.times(left as u32)),
    )
}

/// The soft and the hard cutoff of a collation.
pub fn collation_deadlines(
    slot: SlotIndex,
    min_gen_time: TimePoint,
    target_rate: TimeSpan,
    slots_per_leader_window: u32,
    is_masterchain: bool,
) -> (r: (TimePoint, TimePoint))
    ensures
        r == deadlines_of(
            slot,
            min_gen_time,
            target_rate,
            slots_per_leader_window,
            is_masterchain,
        ),
{
    let soft_deadline: TimePoint = if is_masterchain {
        min_gen_time.add_or_same(target_rate)
    } else {
        min_gen_time
    };
    let spw: u32 = if slots_per_leader_window == 0 {
        1
    } else {
        slots_per_leader_window
    };
    let slots_to_window_end: u32 = spw - slot.offset_in_window(spw);
    let hard_deadline: TimePoint = min_gen_time.add_or_same(
        target_rate.saturating_mul(slots_to_window_end),
    );
    (soft_deadline, hard_deadline)
}

/// A collation never has to stop taking in messages later than it is given up,
/// and a masterchain block has its full time, as far as the clock goes.
pub proof fn soft_cutoff_is_not_after_hard(
    slot: SlotIndex,
    min_gen_time: TimePoint,
    target_rate: TimeSpan,
    slots_per_leader_window: u32,
    is_masterchain: bool,
)
    requires
        ({
            let left = slots_left(slot, slots_per_leader_window);
            &&& min_gen_time.plus(target_rate.times(left as u32)) is Some
            &&& target_rate.nanos * left <= crate::time::TIME_SPAN_MAX
        }),
    ensures
        ({
            let (soft, hard) = deadlines_of(
                slot,
                min_gen_time,
                target_rate,
                slots_per_leader_window,
                is_masterchain,
            );
            let left = slots_left(slot, slots_per_leader_window);
            &&& min_gen_time.nanos <= soft.nanos <= hard.nanos
            &&& hard.nanos == min_gen_time.nanos + target_rate.nanos * left
            &&& is_masterchain ==> soft.nanos == min_gen_time.nanos + target_rate.nanos
        }),
{
    let len: int = if slots_per_leader_window == 0 {
        1
    } else {
        slots_per_leader_window as int
    };
    let left = slots_left(slot, slots_per_leader_window);
    let rate = target_rate.nanos as int;
    assert(0 <= slot.0 as int % len < len) by (nonlinear_arith)
        requires
            len > 0,
    ;
    assert(rate <= rate * left) by (nonlinear_arith)
        requires
            rate >= 0,
            left >= 1,
    ;
    assert(rate * 1 == rate);
}

/// The hard cutoffs of two slots of one window agree if both blocks are
/// generated in their slots' times: both are the end of the window.
pub proof fn hard_cutoff_is_window_end(
    slot: SlotIndex,
    min_gen_time: TimePoint,
    later: SlotIndex,
    later_min_gen_time: TimePoint,
    target_rate: TimeSpan,
    slots_per_leader_window: u32,
    is_masterchain: bool,
)
    requires
        slots_per_leader_window > 0,
        slot.window(slots_per_leader_window) == later.window(slots_per_leader_window),
        slot.0 <= later.0,
        later_min_gen_time.nanos == min_gen_time.nanos + target_rate.nanos * (later.0 - slot.0),
        ({
            let left = slots_left(slot, slots_per_leader_window);
            &&& min_gen_time.plus(target_rate.times(left as u32)) is Some
            &&& target_rate.nanos * left <= crate::time::TIME_SPAN_MAX
        }),
    ensures
        deadlines_of(slot, min_gen_time, target_rate, slots_per_leader_window, is_masterchain).1
            == deadlines_of(
            later,
            later_min_gen_time,
            target_rate,
            slots_per_leader_window,
            is_masterchain,
        ).1,
{
    let len = slots_per_leader_window as int;
    let rate = target_rate.nanos as int;
    let a = slot.0 as int;
    let b = later.0 as int;
    let left_a = len - a % len;
    let left_b = len - b % len;
    assert(0 <= a / len <= a && 0 <= b / len <= b) by (nonlinear_arith)
        requires
            len > 0,
            a >= 0,
            b >= 0,
    ;
    assert(a / len == b / len);
    assert(a == len * (a / len) + a % len && 0 <= a % len < len) by (nonlinear_arith)
        requires
            len > 0,
    ;
    assert(b == len * (b / len) + b % len && 0 <= b % len < len) by (nonlinear_arith)
        requires
            len > 0,
    ;
    assert(left_a == (b - a) + left_b);
    assert(rate * left_a == rate * (b - a) + rate * left_b) by (nonlinear_arith)
        requires
            left_a == (b - a) + left_b,
    ;
    assert(0 <= rate * left_b <= rate * left_a) by (nonlinear_arith)
        requires
            rate >= 0,
            0 <= left_b <= left_a,
    ;
}

} // verus!
