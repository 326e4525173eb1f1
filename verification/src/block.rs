//! Slots, windows, validators and block candidates.

use vstd::prelude::*;
use vstd::string::*;
use vstd::std_specs::convert::FromSpecImpl;
use vstd::std_specs::ops::{AddSpecImpl, MulSpecImpl, RemSpecImpl, SubSpecImpl};

use std::ops::{Add, Mul, Rem, Sub};

use crate::assoc::Key;
use crate::candidate::BlockCandidate;
use crate::chain::{BlockIdExt, UInt256};
use crate::order::Ranked;
use crate::text::{decimal, decimal_text, decimal_text_padded, hash_prefix, pad_to_three, short_hash};

verus! {

/// `a - b`, or zero where `b` is larger.
pub open spec fn sat_sub(a: u32, b: u32) -> u32 {
    if a >= b {
        (a - b) as u32
    } else {
        0
    }
}

/// Position in the sequence of consensus rounds.
#[derive(Clone, Copy, Debug, PartialEq, Eq, PartialOrd, Ord, Hash, Structural)]
pub struct SlotIndex(pub u32);

/// Index of a leader window: a run of slots with one leader.
#[derive(Clone, Copy, Debug, PartialEq, Eq, PartialOrd, Ord, Hash, Structural)]
pub struct WindowIndex(pub u32);

/// Position in the validator set.
#[derive(Clone, Copy, Debug, PartialEq, Eq, PartialOrd, Ord, Hash, Structural)]
pub struct ValidatorIndex(pub u32);

/// Round number that stands for no round.
pub const SIMPLEX_ROUNDLESS: u32 = 0xffff_ffff;

/// Where a block comes from, as callbacks are told.
#[derive(Clone, Copy, Debug, PartialEq, Eq, Structural)]
pub struct BlockSourceInfo {
    /// The validator that made the block.
    pub source_idx: ValidatorIndex,
    pub round: u32,
    pub first_block_round: u32,
    pub priority: u32,
}

/// The source of a block that belongs to no round.
pub open spec fn roundless_source(source_idx: ValidatorIndex) -> BlockSourceInfo {
    BlockSourceInfo {
        source_idx,
        round: SIMPLEX_ROUNDLESS,
        first_block_round: SIMPLEX_ROUNDLESS,
        priority: 0,
    }
}

impl BlockSourceInfo {
    /// The source of a block that belongs to no round.
    pub fn roundless(source_idx: ValidatorIndex) -> (r: Self)
        ensures
            r == roundless_source(source_idx),
    {
        BlockSourceInfo {
            source_idx,
            round: SIMPLEX_ROUNDLESS,
            first_block_round: SIMPLEX_ROUNDLESS,
            priority: 0,
        }
    }
}

impl SlotIndex {
    /// Moves on by `rhs`.
    pub fn add_assign(&mut self, rhs: u32)
        requires
            old(self).0 + rhs <= u32::MAX,
        ensures
            final(self).0 == old(self).0 + rhs,
    {
        self.0 = self.0 + rhs;
    }

    /// The slot with number `slot`.
    pub fn new(slot: u32) -> (r: Self)
        ensures
            r.0 == slot,
    {
        SlotIndex(slot)
    }

    /// The slot's number.
    pub fn value(self) -> (r: u32)
        ensures
            r == self.0,
    {
        self.0
    }

    /// The window that the slot falls in.
    pub open spec fn window(self, slots_per_window: u32) -> WindowIndex
        recommends
            slots_per_window > 0,
    {
        WindowIndex((self.0 as int / slots_per_window as int) as u32)
    }

    /// The window that the slot falls in.
    pub fn window_index(self, slots_per_window: u32) -> (r: WindowIndex)
        requires
            slots_per_window > 0,
        ensures
            r == self.window(slots_per_window),
            r.0 == self.0 as int / slots_per_window as int,
    {
        assert(0 <= self.0 as int / slots_per_window as int <= self.0) by (nonlinear_arith)
            requires
                slots_per_window > 0,
                self.0 >= 0,
        ;
        WindowIndex(self.0 / slots_per_window)
    }

    /// The slot's place in its window, counted from zero.
    pub fn offset_in_window(self, slots_per_window: u32) -> (r: u32)
        requires
            slots_per_window > 0,
        ensures
            r == self.0 as int % slots_per_window as int,
            r < slots_per_window,
    {
        self.0 % slots_per_window
    }

    /// Whether the slot opens its window.
    pub fn is_first_in_window(self, slots_per_window: u32) -> (r: bool)
        requires
            slots_per_window > 0,
        ensures
            r == (self.0 as int % slots_per_window as int == 0),
    {
        self.offset_in_window(slots_per_window) == 0
    }

    /// Whether the slot closes its window.
    pub fn is_last_in_window(self, slots_per_window: u32) -> (r: bool)
        requires
            slots_per_window > 0,
        ensures
            r == (self.0 as int % slots_per_window as int == slots_per_window - 1),
    {
        self.offset_in_window(slots_per_window) == slots_per_window - 1
    }

    /// The first slot of the slot's window.
    pub fn window_start(self, slots_per_window: u32) -> (r: SlotIndex)
        requires
            slots_per_window > 0,
        ensures
            r.0 == self.0 - self.0 as int % slots_per_window as int,
    {
        assert(self.0 as int == (self.0 as int / slots_per_window as int) * slots_per_window as int
            + self.0 as int % slots_per_window as int) by (nonlinear_arith)
            requires
                slots_per_window > 0,
        ;
        SlotIndex((self.0 / slots_per_window) * slots_per_window)
    }

    /// The text `s` followed by the slot's number.
    pub fn display(&self) -> (s: String)
        ensures
            s@ == "s"@ + decimal(self.0 as nat),
    {
        let mut s = String::from_str("s");
        s.append(decimal_text(self.0 as u64).as_str());
        s
    }
}

impl Ranked for SlotIndex {
    /// By number.
    open spec fn rank(self) -> int {
        self.0 as int
    }

    fn not_after(&self, other: &Self) -> (r: bool) {
        self.0 <= other.0
    }
}

impl Key for SlotIndex {
    fn same(&self, other: &Self) -> (r: bool) {
        *self == *other
    }
}

impl Default for SlotIndex {
    fn default() -> (r: Self)
        ensures
            r.0 == 0,
    {
        SlotIndex(0)
    }
}

impl From<u32> for SlotIndex {
    fn from(v: u32) -> (r: Self) {
        SlotIndex(v)
    }
}

impl FromSpecImpl<u32> for SlotIndex {
    open spec fn obeys_from_spec() -> bool {
        true
    }

    open spec fn from_spec(v: u32) -> Self {
        SlotIndex(v)
    }
}

impl From<SlotIndex> for u32 {
    fn from(v: SlotIndex) -> (r: Self) {
        v.0
    }
}

impl FromSpecImpl<SlotIndex> for u32 {
    open spec fn obeys_from_spec() -> bool {
        true
    }

    open spec fn from_spec(v: SlotIndex) -> Self {
        v.0
    }
}

impl From<i32> for SlotIndex {
    fn from(v: i32) -> (r: Self) {
        SlotIndex(v as u32)
    }
}

impl FromSpecImpl<i32> for SlotIndex {
    open spec fn obeys_from_spec() -> bool {
        true
    }

    open spec fn from_spec(v: i32) -> Self {
        SlotIndex(v as u32)
    }
}

impl From<SlotIndex> for i32 {
    fn from(v: SlotIndex) -> (r: Self) {
        v.0 as i32
    }
}

impl FromSpecImpl<SlotIndex> for i32 {
    open spec fn obeys_from_spec() -> bool {
        true
    }

    open spec fn from_spec(v: SlotIndex) -> Self {
        v.0 as i32
    }
}

impl Add<u32> for SlotIndex {
    type Output = SlotIndex;

    fn add(self, rhs: u32) -> (r: SlotIndex) {
        SlotIndex(self.0 + rhs)
    }
}

impl AddSpecImpl<u32> for SlotIndex {
    open spec fn obeys_add_spec() -> bool {
        true
    }

    open spec fn add_req(self, rhs: u32) -> bool {
        self.0 + rhs <= u32::MAX
    }

    open spec fn add_spec(self, rhs: u32) -> SlotIndex {
        SlotIndex((self.0 + rhs) as u32)
    }
}

impl Sub<u32> for SlotIndex {
    type Output = SlotIndex;

    fn sub(self, rhs: u32) -> (r: SlotIndex) {
        SlotIndex(self.0.saturating_sub(rhs))
    }
}

impl SubSpecImpl<u32> for SlotIndex {
    open spec fn obeys_sub_spec() -> bool {
        true
    }

    open spec fn sub_req(self, rhs: u32) -> bool {
        true
    }

    open spec fn sub_spec(self, rhs: u32) -> SlotIndex {
        SlotIndex(sat_sub(self.0, rhs))
    }
}

impl Sub<SlotIndex> for SlotIndex {
    type Output = u32;

    fn sub(self, rhs: SlotIndex) -> (r: u32) {
        self.0.saturating_sub(rhs.0)
    }
}

impl SubSpecImpl<SlotIndex> for SlotIndex {
    open spec fn obeys_sub_spec() -> bool {
        true
    }

    open spec fn sub_req(self, rhs: SlotIndex) -> bool {
        true
    }

    open spec fn sub_spec(self, rhs: SlotIndex) -> u32 {
        sat_sub(self.0, rhs.0)
    }
}

impl Rem<u32> for SlotIndex {
    type Output = u32;

    fn rem(self, rhs: u32) -> (r: u32) {
        self.0 % rhs
    }
}

impl RemSpecImpl<u32> for SlotIndex {
    open spec fn obeys_rem_spec() -> bool {
        true
    }

    open spec fn rem_req(self, rhs: u32) -> bool {
        rhs != 0
    }

    open spec fn rem_spec(self, rhs: u32) -> u32 {
        (self.0 as int % rhs as int) as u32
    }
}

impl WindowIndex {
    /// Moves on by `rhs`.
    pub fn add_assign(&mut self, rhs: u32)
        requires
            old(self).0 + rhs <= u32::MAX,
        ensures
            final(self).0 == old(self).0 + rhs,
    {
        self.0 = self.0 + rhs;
    }

    /// The window with number `idx`.
    pub fn new(idx: u32) -> (r: Self)
        ensures
            r.0 == idx,
    {
        WindowIndex(idx)
    }

    /// The window's number.
    pub fn value(self) -> (r: u32)
        ensures
            r == self.0,
    {
        self.0
    }

    /// The first slot of the window.
    pub fn first_slot(self, slots_per_window: u32) -> (r: SlotIndex)
        requires
            self.0 * slots_per_window <= u32::MAX,
        ensures
            r.0 == self.0 * slots_per_window,
    {
        SlotIndex(self.0 * slots_per_window)
    }

    /// The last slot of the window.
    pub fn last_slot(self, slots_per_window: u32) -> (r: SlotIndex)
        requires
            slots_per_window > 0,
            self.0 * slots_per_window + slots_per_window <= u32::MAX,
        ensures
            r.0 == self.0 * slots_per_window + slots_per_window - 1,
    {
        SlotIndex(self.0 * slots_per_window + slots_per_window - 1)
    }

    /// The first slot of the window.
    pub fn window_start(self, slots_per_window: u32) -> (r: SlotIndex)
        requires
            self.0 * slots_per_window <= u32::MAX,
        ensures
            r.0 == self.0 * slots_per_window,
    {
        self.first_slot(slots_per_window)
    }

    /// The text `w` followed by the window's number.
    pub fn display(&self) -> (s: String)
        ensures
            s@ == "w"@ + decimal(self.0 as nat),
    {
        let mut s = String::from_str("w");
        s.append(decimal_text(self.0 as u64).as_str());
        s
    }
}

impl Default for WindowIndex {
    fn default() -> (r: Self)
        ensures
            r.0 == 0,
    {
        WindowIndex(0)
    }
}

impl From<u32> for WindowIndex {
    fn from(v: u32) -> (r: Self) {
        WindowIndex(v)
    }
}

impl FromSpecImpl<u32> for WindowIndex {
    open spec fn obeys_from_spec() -> bool {
        true
    }

    open spec fn from_spec(v: u32) -> Self {
        WindowIndex(v)
    }
}

impl From<WindowIndex> for u32 {
    fn from(v: WindowIndex) -> (r: Self) {
        v.0
    }
}

impl FromSpecImpl<WindowIndex> for u32 {
    open spec fn obeys_from_spec() -> bool {
        true
    }

    open spec fn from_spec(v: WindowIndex) -> Self {
        v.0
    }
}

impl Add<u32> for WindowIndex {
    type Output = WindowIndex;

    fn add(self, rhs: u32) -> (r: WindowIndex) {
        WindowIndex(self.0 + rhs)
    }
}

impl AddSpecImpl<u32> for WindowIndex {
    open spec fn obeys_add_spec() -> bool {
        true
    }

    open spec fn add_req(self, rhs: u32) -> bool {
        self.0 + rhs <= u32::MAX
    }

    open spec fn add_spec(self, rhs: u32) -> WindowIndex {
        WindowIndex((self.0 + rhs) as u32)
    }
}

impl Sub<u32> for WindowIndex {
    type Output = WindowIndex;

    fn sub(self, rhs: u32) -> (r: WindowIndex) {
        WindowIndex(self.0.saturating_sub(rhs))
    }
}

impl SubSpecImpl<u32> for WindowIndex {
    open spec fn obeys_sub_spec() -> bool {
        true
    }

    open spec fn sub_req(self, rhs: u32) -> bool {
        true
    }

    open spec fn sub_spec(self, rhs: u32) -> WindowIndex {
        WindowIndex(sat_sub(self.0, rhs))
    }
}

impl Sub<WindowIndex> for WindowIndex {
    type Output = u32;

    fn sub(self, rhs: WindowIndex) -> (r: u32) {
        self.0.saturating_sub(rhs.0)
    }
}

impl SubSpecImpl<WindowIndex> for WindowIndex {
    open spec fn obeys_sub_spec() -> bool {
        true
    }

    open spec fn sub_req(self, rhs: WindowIndex) -> bool {
        true
    }

    open spec fn sub_spec(self, rhs: WindowIndex) -> u32 {
        sat_sub(self.0, rhs.0)
    }
}

impl Mul<u32> for WindowIndex {
    type Output = SlotIndex;

    fn mul(self, rhs: u32) -> (r: SlotIndex) {
        SlotIndex(self.0 * rhs)
    }
}

impl MulSpecImpl<u32> for WindowIndex {
    open spec fn obeys_mul_spec() -> bool {
        true
    }

    open spec fn mul_req(self, rhs: u32) -> bool {
        self.0 * rhs <= u32::MAX
    }

    open spec fn mul_spec(self, rhs: u32) -> SlotIndex {
        SlotIndex((self.0 * rhs) as u32)
    }
}

impl ValidatorIndex {
    /// Moves on by `rhs`.
    pub fn add_assign(&mut self, rhs: u32)
        requires
            old(self).0 + rhs <= u32::MAX,
        ensures
            final(self).0 == old(self).0 + rhs,
    {
        self.0 = self.0 + rhs;
    }

    /// The validator at position `idx`.
    pub fn new(idx: u32) -> (r: Self)
        ensures
            r.0 == idx,
    {
        ValidatorIndex(idx)
    }

    /// The validator's position.
    pub fn value(self) -> (r: u32)
        ensures
            r == self.0,
    {
        self.0
    }

    /// Whether a set of `num_validators` has a validator at this position.
    pub fn is_valid(self, num_validators: usize) -> (r: bool)
        ensures
            r == (self.0 < num_validators),
    {
        (self.0 as usize) < num_validators
    }

    /// Whether a set of `num_validators` has no validator at this position.
    pub fn is_out_of_bounds(self, num_validators: usize) -> (r: bool)
        ensures
            r == (self.0 >= num_validators),
    {
        (self.0 as usize) >= num_validators
    }

    /// The text `v` followed by the position, padded to three digits.
    pub fn display(&self) -> (s: String)
        ensures
            s@ == "v"@ + pad_to_three(decimal(self.0 as nat)),
    {
        let mut s = String::from_str("v");
        s.append(decimal_text_padded(self.0 as u64).as_str());
        s
    }
}

impl Default for ValidatorIndex {
    fn default() -> (r: Self)
        ensures
            r.0 == 0,
    {
        ValidatorIndex(0)
    }
}

impl From<u32> for ValidatorIndex {
    fn from(v: u32) -> (r: Self) {
        ValidatorIndex(v)
    }
}

impl FromSpecImpl<u32> for ValidatorIndex {
    open spec fn obeys_from_spec() -> bool {
        true
    }

    open spec fn from_spec(v: u32) -> Self {
        ValidatorIndex(v)
    }
}

impl From<ValidatorIndex> for u32 {
    fn from(v: ValidatorIndex) -> (r: Self) {
        v.0
    }
}

impl FromSpecImpl<ValidatorIndex> for u32 {
    open spec fn obeys_from_spec() -> bool {
        true
    }

    open spec fn from_spec(v: ValidatorIndex) -> Self {
        v.0
    }
}

impl From<usize> for ValidatorIndex {
    fn from(v: usize) -> (r: Self) {
        ValidatorIndex(v as u32)
    }
}

impl FromSpecImpl<usize> for ValidatorIndex {
    open spec fn obeys_from_spec() -> bool {
        true
    }

    open spec fn from_spec(v: usize) -> Self {
        ValidatorIndex(v as u32)
    }
}

impl From<ValidatorIndex> for usize {
    fn from(v: ValidatorIndex) -> (r: Self) {
        v.0 as usize
    }
}

impl FromSpecImpl<ValidatorIndex> for usize {
    open spec fn obeys_from_spec() -> bool {
        true
    }

    open spec fn from_spec(v: ValidatorIndex) -> Self {
        v.0 as usize
    }
}

impl Add<u32> for ValidatorIndex {
    type Output = ValidatorIndex;

    fn add(self, rhs: u32) -> (r: ValidatorIndex) {
        ValidatorIndex(self.0 + rhs)
    }
}

impl AddSpecImpl<u32> for ValidatorIndex {
    open spec fn obeys_add_spec() -> bool {
        true
    }

    open spec fn add_req(self, rhs: u32) -> bool {
        self.0 + rhs <= u32::MAX
    }

    open spec fn add_spec(self, rhs: u32) -> ValidatorIndex {
        ValidatorIndex((self.0 + rhs) as u32)
    }
}

impl Sub<u32> for ValidatorIndex {
    type Output = ValidatorIndex;

    fn sub(self, rhs: u32) -> (r: ValidatorIndex) {
        ValidatorIndex(self.0.saturating_sub(rhs))
    }
}

impl SubSpecImpl<u32> for ValidatorIndex {
    open spec fn obeys_sub_spec() -> bool {
        true
    }

    open spec fn sub_req(self, rhs: u32) -> bool {
        true
    }

    open spec fn sub_spec(self, rhs: u32) -> ValidatorIndex {
        ValidatorIndex(sat_sub(self.0, rhs))
    }
}

impl Sub<ValidatorIndex> for ValidatorIndex {
    type Output = u32;

    fn sub(self, rhs: ValidatorIndex) -> (r: u32) {
        self.0.saturating_sub(rhs.0)
    }
}

impl SubSpecImpl<ValidatorIndex> for ValidatorIndex {
    open spec fn obeys_sub_spec() -> bool {
        true
    }

    open spec fn sub_req(self, rhs: ValidatorIndex) -> bool {
        true
    }

    open spec fn sub_spec(self, rhs: ValidatorIndex) -> u32 {
        sat_sub(self.0, rhs.0)
    }
}

impl Rem<u32> for ValidatorIndex {
    type Output = u32;

    fn rem(self, rhs: u32) -> (r: u32) {
        self.0 % rhs
    }
}

impl RemSpecImpl<u32> for ValidatorIndex {
    open spec fn obeys_rem_spec() -> bool {
        true
    }

    open spec fn rem_req(self, rhs: u32) -> bool {
        rhs != 0
    }

    open spec fn rem_spec(self, rhs: u32) -> u32 {
        (self.0 as int % rhs as int) as u32
    }
}

/// A slot lies between the first and the last slot of its window, and a slot
/// between those two bounds lies in that window.
pub proof fn window_holds_its_slots(slot: SlotIndex, window: WindowIndex, slots_per_window: u32)
    requires
        slots_per_window > 0,
    ensures
        slot.window(slots_per_window) == window <==> window.0 * slots_per_window <= slot.0
            < window.0 * slots_per_window + slots_per_window,
{
    let s = slot.0 as int;
    let n = slots_per_window as int;
    let w = window.0 as int;
    let q = s / n;
    assert(s == q * n + s % n && 0 <= s % n < n && 0 <= q <= s) by (nonlinear_arith)
        requires
            n > 0,
            s >= 0,
            q == s / n,
    ;
    if q != w {
        assert(!(w * n <= s < w * n + n)) by (nonlinear_arith)
            requires
                s == q * n + s % n,
                0 <= s % n < n,
                q != w,
                n > 0,
        ;
    }
}

/// Consecutive slots share a window unless the first of them closes it; then
/// the second opens the next one.
pub proof fn windows_follow_each_other(slot: SlotIndex, slots_per_window: u32)
    requires
        slots_per_window > 0,
        slot.0 < u32::MAX,
    ensures
        slot.0 as int % slots_per_window as int == slots_per_window - 1 ==> SlotIndex(
            (slot.0 + 1) as u32,
        ).window(slots_per_window).0 == slot.window(slots_per_window).0 + 1 && (slot.0 + 1) as int
            % slots_per_window as int == 0,
        slot.0 as int % slots_per_window as int != slots_per_window - 1 ==> SlotIndex(
            (slot.0 + 1) as u32,
        ).window(slots_per_window) == slot.window(slots_per_window),
{
    let s = slot.0 as int;
    let n = slots_per_window as int;
    let q = s / n;
    let r = s % n;
    assert(s == q * n + r && 0 <= r < n && 0 <= q <= s) by (nonlinear_arith)
        requires
            n > 0,
            s >= 0,
            q == s / n,
            r == s % n,
    ;
    if r == n - 1 {
        assert((s + 1) / n == q + 1 && (s + 1) % n == 0) by (nonlinear_arith)
            requires
                s == q * n + r,
                r == n - 1,
                n > 0,
        ;
        assert(q + 1 <= s + 1);
    } else {
        assert((s + 1) / n == q) by (nonlinear_arith)
            requires
                s == q * n + r,
                0 <= r,
                r + 1 < n,
        ;
    }
}

/// Identifier of a candidate by slot and hash.
#[derive(Clone, Copy, Debug, PartialEq, Eq, Hash, Structural)]
pub struct RawCandidateId {
    pub slot: SlotIndex,
    pub hash: UInt256,
}

impl Key for RawCandidateId {
    fn same(&self, other: &Self) -> (r: bool) {
        *self == *other
    }
}

impl Ranked for RawCandidateId {
    /// By slot, then by hash.
    open spec fn rank(self) -> int {
        self.slot.0
            * 0x1_0000_0000_0000_0000_0000_0000_0000_0000_0000_0000_0000_0000_0000_0000_0000_0000
            + self.hash.as_nat()
    }

    fn not_after(&self, other: &Self) -> (r: bool) {
        if self.slot.0 != other.slot.0 {
            self.slot.0 < other.slot.0
        } else {
            !other.hash.less(&self.hash)
        }
    }
}

/// Slot and hash of a parent candidate.
#[derive(Clone, Copy, Debug, PartialEq, Eq, Hash, Structural)]
pub struct CandidateParentInfo {
    pub slot: SlotIndex,
    pub hash: UInt256,
}

/// A parent, or `None` for the first block of an epoch.
pub type CandidateParent = Option<CandidateParentInfo>;

/// Parent of an unresolved candidate.
pub type RawParentId = Option<RawCandidateId>;

/// Parent of a resolved candidate.
pub type ParentId = Option<CandidateId>;

/// Identifier of a candidate together with its block.
#[derive(Clone, Copy, Debug, PartialEq, Eq, Hash, Structural)]
pub struct CandidateId {
    pub slot: SlotIndex,
    pub hash: UInt256,
    pub block: BlockIdExt,
}

/// What the hash of a candidate identifier is computed from.
#[allow(inconsistent_fields)]
#[derive(Clone, Copy, Debug, PartialEq, Eq, Structural)]
pub enum CandidateHashInput {
    /// Block, hash of the collated data, and optional parent.
    Ordinary {
        block: Option<BlockIdExt>,
        collated_file_hash: Option<UInt256>,
        parent: Option<RawCandidateId>,
    },
    /// Re-signed block and its parent candidate.
    Empty { block: BlockIdExt, parent: RawCandidateId },
}

/// The text `{slot=s<slot>, hash=<8 digits>}`.
pub open spec fn slot_hash_text(slot: SlotIndex, hash: UInt256) -> Seq<char> {
    "{slot=s"@ + decimal(slot.0 as nat) + ", hash="@ + hash_prefix(hash) + "}"@
}

fn show_slot_hash(slot: SlotIndex, hash: &UInt256) -> (s: String)
    ensures
        s@ == slot_hash_text(slot, *hash),
{
    let mut s = String::from_str("{slot=s");
    s.append(decimal_text(slot.0 as u64).as_str());
    s.append(", hash=");
    s.append(short_hash(hash).as_str());
    s.append("}");
    s
}

impl RawCandidateId {
    /// The input of the hash of a candidate with a block of its own.
    pub fn create(block: Option<&BlockCandidate>, parent: Option<&RawCandidateId>) -> (r:
        CandidateHashInput)
        ensures
            r == (CandidateHashInput::Ordinary {
                block: match block {
                    Some(b) => Some(b.id),
                    None => None,
                },
                collated_file_hash: match block {
                    Some(b) => Some(b.collated_file_hash),
                    None => None,
                },
                parent: match parent {
                    Some(p) => Some(*p),
                    None => None,
                },
            }),
    {
        let parent = match parent {
            Some(p) => Some(*p),
            None => None,
        };
        match block {
            Some(b) => CandidateHashInput::Ordinary {
                block: Some(b.id),
                collated_file_hash: Some(b.collated_file_hash),
                parent,
            },
            None => CandidateHashInput::Ordinary { block: None, collated_file_hash: None, parent },
        }
    }

    /// The input of the hash of a candidate that re-signs `referenced_block`.
    pub fn create_empty(referenced_block: &BlockIdExt, parent: &RawCandidateId) -> (r:
        CandidateHashInput)
        ensures
            r == (CandidateHashInput::Empty { block: *referenced_block, parent: *parent }),
    {
        CandidateHashInput::Empty { block: *referenced_block, parent: *parent }
    }

    /// Slot and hash as a parent reference.
    pub fn as_parent_info(&self) -> (r: CandidateParentInfo)
        ensures
            r.slot == self.slot,
            r.hash == self.hash,
    {
        CandidateParentInfo { slot: self.slot, hash: self.hash }
    }

    /// The identifier with the given slot and hash.
    pub fn from_parts(slot: SlotIndex, hash: UInt256) -> (r: Self)
        ensures
            r.slot == slot,
            r.hash == hash,
    {
        RawCandidateId { slot, hash }
    }

    /// The identifier in the form `{slot=s<slot>, hash=<8 digits>}`.
    pub fn display(&self) -> (s: String)
        ensures
            s@ == slot_hash_text(self.slot, self.hash),
    {
        show_slot_hash(self.slot, &self.hash)
    }
}

impl CandidateId {
    /// The identifier `raw` with its block.
    pub fn from_raw(raw: &RawCandidateId, block: BlockIdExt) -> (r: Self)
        ensures
            r == (CandidateId { slot: raw.slot, hash: raw.hash, block }),
    {
        CandidateId { slot: raw.slot, hash: raw.hash, block }
    }

    /// Slot and hash alone.
    pub open spec fn raw(self) -> RawCandidateId {
        RawCandidateId { slot: self.slot, hash: self.hash }
    }

    /// Slot and hash alone.
    pub fn to_raw(&self) -> (r: RawCandidateId)
        ensures
            r == self.raw(),
    {
        RawCandidateId { slot: self.slot, hash: self.hash }
    }

    /// Slot and hash as a parent reference.
    pub fn as_parent_info(&self) -> (r: CandidateParentInfo)
        ensures
            r.slot == self.slot,
            r.hash == self.hash,
    {
        CandidateParentInfo { slot: self.slot, hash: self.hash }
    }

    /// The text `{slot=s<slot>, hash=<8 digits>, block=<seqno>}`.
    pub fn display(&self) -> (s: String)
        ensures
            s@ == "{slot=s"@ + decimal(self.slot.0 as nat) + ", hash="@ + hash_prefix(self.hash)
                + ", block="@ + decimal(self.block.seq_no as nat) + "}"@,
    {
        let mut s = String::from_str("{slot=s");
        s.append(decimal_text(self.slot.0 as u64).as_str());
        s.append(", hash=");
        s.append(short_hash(&self.hash).as_str());
        s.append(", block=");
        s.append(decimal_text(self.block.seq_no as u64).as_str());
        s.append("}");
        s
    }
}

impl From<CandidateId> for RawCandidateId {
    fn from(id: CandidateId) -> (r: Self) {
        RawCandidateId { slot: id.slot, hash: id.hash }
    }
}

impl FromSpecImpl<CandidateId> for RawCandidateId {
    open spec fn obeys_from_spec() -> bool {
        true
    }

    open spec fn from_spec(id: CandidateId) -> Self {
        id.raw()
    }
}

impl From<&CandidateId> for RawCandidateId {
    fn from(id: &CandidateId) -> (r: Self) {
        RawCandidateId { slot: id.slot, hash: id.hash }
    }
}

impl FromSpecImpl<&CandidateId> for RawCandidateId {
    open spec fn obeys_from_spec() -> bool {
        true
    }

    open spec fn from_spec(id: &CandidateId) -> Self {
        id.raw()
    }
}

impl CandidateParentInfo {
    /// The parent with the given slot and hash.
    pub fn new(slot: SlotIndex, hash: UInt256) -> (r: Self)
        ensures
            r.slot == slot,
            r.hash == hash,
    {
        CandidateParentInfo { slot, hash }
    }

    /// The candidate that the reference names.
    pub open spec fn id(self) -> RawCandidateId {
        RawCandidateId { slot: self.slot, hash: self.hash }
    }

    /// The candidate that the reference names.
    pub fn to_id(&self) -> (r: RawCandidateId)
        ensures
            r == self.id(),
    {
        RawCandidateId { slot: self.slot, hash: self.hash }
    }

    /// The reference in the form `{slot=s<slot>, hash=<8 digits>}`.
    pub fn display(&self) -> (s: String)
        ensures
            s@ == slot_hash_text(self.slot, self.hash),
    {
        show_slot_hash(self.slot, &self.hash)
    }
}

/// Distances do not go below zero: taking off what was added gives back what was there,
/// and taking off more than is there leaves nothing.
pub proof fn distances_add_up(a: u32, b: u32)
    ensures
        a >= b ==> sat_sub(a, b) + b == a,
        a <= b ==> sat_sub(a, b) == 0,
{
}

} // verus!
