//! The collation pipeline of a leader: when to ask for a block, what to do with
//! it, and how to fill slots while it is on its way.
//!
//! Each step takes an event and the state of the session, changes the pipeline,
//! and leaves actions for the surroundings. Building and signing a candidate is
//! left to the caller: a step that has a candidate to publish returns a
//! [`PublishRequest`], and [`CollationController::candidate_built`] goes on from
//! there.

use vstd::prelude::*;

use crate::assoc::{lookup, AssocMap};
use crate::block::{
    roundless_source, BlockSourceInfo, CandidateParentInfo, RawCandidateId, SlotIndex,
    ValidatorIndex,
};
use crate::block_desc::GeneratedBlockDesc;
use crate::candidate_book::CandidateBook;
use crate::chain::BlockIdExt;
use crate::collation::{
    collation_deadlines, deadlines_of, max_seqno, CollatedBlock, CollationAction, CollationBreach,
    CollationDeadlineContext, CollationInputs, CollationPreparation, CollationResult,
    CollationTiming, ForgetReason, GenerateRequest, LocalChainHead, PrecollatedBlock,
    PreparedCollation, PrevBlocks, PublishRequest, RealCollationState,
    COLLATION_ERROR_RESTART_BACKOFF, MAX_GENERATION_TIME,
};
use crate::order::{
    is_sorted, reordering_keeps_members, sort_by_rank, sorted_listing_is_unique, sorting_is_stable,
};
use crate::time::{TimePoint, TimeSpan};

verus! {

/// What a step leaves to be published.
pub type Step = Result<Option<PublishRequest>, CollationBreach>;

/// How a finished collation goes on.
#[derive(Debug)]
pub enum Completed {
    /// Its candidate is to be published.
    Publish(PublishRequest),
    /// Its candidate cannot be published; the given slot is next.
    Then(SlotIndex),
    /// Nothing follows.
    Done,
}

/// The contents of a [`CollationController`].
#[verifier::ext_equal]
pub struct CollationView {
    /// Collations by slot.
    pub precollated: Map<SlotIndex, PrecollatedBlock>,
    /// Number of the next request.
    pub next_request_id: u32,
    /// Highest slot that a collation was asked for.
    pub max_slot: Option<SlotIndex>,
    /// When the next collation may begin.
    pub earliest: Option<TimePoint>,
    /// Last candidate of the window.
    pub head: Option<LocalChainHead>,
    /// Last slot that a collation began for.
    pub last_generated: Option<SlotIndex>,
    /// Blocks of candidates that were made here.
    pub parents: Map<RawCandidateId, BlockIdExt>,
    /// Generation times of candidates that were made here, in milliseconds.
    pub parent_times: Map<RawCandidateId, u64>,
    /// The collation that is running.
    pub active: Option<RealCollationState>,
    /// When finalization last moved on.
    pub finalized_at: Option<TimePoint>,
    /// Seqno that finalization had reached by then.
    pub observed_seqno: Option<u32>,
    /// Actions that were not fetched yet.
    pub actions: Seq<CollationAction>,
}

/// The slots of `slots` in ascending order.
pub open spec fn ascending(slots: Set<SlotIndex>) -> Seq<SlotIndex> {
    choose|q: Seq<SlotIndex>|
        #![trigger q.to_set()]
        is_sorted(q) && q.no_duplicates() && q.to_set() == slots
}

/// Orders to cancel the requests of `slots`.
pub open spec fn cancels(m: Map<SlotIndex, PrecollatedBlock>, slots: Seq<SlotIndex>) -> Seq<
    CollationAction,
> {
    slots.map_values(|slot: SlotIndex| CollationAction::Cancel(m[slot].request_id))
}

/// Orders to end the tracking of `slots`.
pub open spec fn forgets(slots: Seq<SlotIndex>) -> Seq<CollationAction> {
    slots.map_values(
        |slot: SlotIndex| CollationAction::Forget(slot, ForgetReason::PipelineReset),
    )
}

/// Whether `a` is the larger seqno; none is smaller than any.
pub open spec fn advances(a: Option<u32>, b: Option<u32>) -> bool {
    match (a, b) {
        (Some(x), Some(y)) => x > y,
        (Some(_), None) => true,
        _ => false,
    }
}

impl CollationView {
    /// With one more action.
    pub open spec fn act(self, action: CollationAction) -> CollationView {
        CollationView { actions: self.actions.push(action), ..self }
    }

    /// Parent that was fixed when the collation of `slot` began.
    pub open spec fn locked_parent(self, slot: SlotIndex) -> Option<CandidateParentInfo> {
        if self.precollated.dom().contains(slot) {
            self.precollated[slot].parent
        } else {
            None
        }
    }

    /// Whether the collation of `slot` has a result.
    pub open spec fn has_result(self, slot: SlotIndex) -> bool {
        self.precollated.dom().contains(slot) && self.precollated[slot].result is Some
    }

    /// The block of a parent: one made here, or else one in the book.
    pub open spec fn resolve_parent(self, inp: CollationInputs, parent: CandidateParentInfo) -> Option<
        BlockIdExt,
    > {
        match lookup(self.parents, parent.id()) {
            Some(block) => Some(block),
            None => match lookup(inp.book@.received, parent.id()) {
                Some(rec) => Some(rec.block_id),
                None => None,
            },
        }
    }

    /// Generation time of the head, if that is `parent`.
    pub open spec fn head_time(self, parent: CandidateParentInfo) -> Option<u64> {
        match self.head {
            Some(head) if head.parent_info == parent => head.gen_utime_ms,
            _ => None,
        }
    }

    /// Generation time of a parent: one made here, or else one in `received`,
    /// or else the head.
    pub open spec fn parent_time(
        self,
        received: Map<RawCandidateId, crate::candidate_book::ReceivedView>,
        parent: CandidateParentInfo,
    ) -> Option<u64> {
        match lookup(self.parent_times, parent.id()) {
            Some(ms) => Some(ms),
            None => match lookup(received, parent.id()) {
                Some(rec) => match rec.gen_utime_ms {
                    Some(ms) => Some(ms),
                    None => self.head_time(parent),
                },
                None => self.head_time(parent),
            },
        }
    }

    /// The blocks that a block after `parent` follows, if they are known.
    pub open spec fn prev_blocks(
        self,
        inp: CollationInputs,
        parent: Option<CandidateParentInfo>,
    ) -> Option<PrevBlocks> {
        match parent {
            Some(p) => match self.resolve_parent(inp, p) {
                Some(block) => Some(PrevBlocks::Parent(block)),
                None => None,
            },
            None => Some(PrevBlocks::SessionStart),
        }
    }

    /// Whether the shard splits after the only block that a new one follows.
    pub open spec fn parent_splits(self, inp: CollationInputs, prev: PrevBlocks) -> Option<bool> {
        match prev {
            PrevBlocks::Parent(block) => inp.before_split_flag(block),
            PrevBlocks::SessionStart => if inp.session_start@.len() == 1 {
                inp.before_split_flag(inp.session_start@[0])
            } else {
                None
            },
        }
    }

    /// Timing of a collation after `parent`: a block's time after the parent,
    /// but not before now and not later than a block's time from now. A shard
    /// asks a block's time earlier.
    pub open spec fn timing(
        self,
        inp: CollationInputs,
        parent: Option<CandidateParentInfo>,
    ) -> CollationTiming {
        let rate = inp.opts.target_rate;
        let parent_gen_utime_ms = match parent {
            Some(p) => self.parent_time(inp.book@.received, p),
            None => None,
        };
        let due = match parent_gen_utime_ms {
            Some(ms) => (TimePoint { nanos: 0 }).plus(TimeSpan::of_millis(ms).plus(rate)),
            None => None,
        };
        let min_gen_time = match due {
            Some(t) => t.later(inp.now).earlier(inp.next_block_time()),
            None => inp.now,
        };
        let start_collate_before = if inp.desc.shard_ident().masterchain() {
            TimeSpan { nanos: 0 }
        } else {
            rate
        };
        CollationTiming {
            dispatch_time: min_gen_time.minus(start_collate_before),
            min_gen_time,
            start_collate_before,
            parent_gen_utime_ms,
        }
    }

    /// Whether a collation after `parent` can begin.
    pub open spec fn preparation(
        self,
        inp: CollationInputs,
        parent: Option<CandidateParentInfo>,
    ) -> Result<CollationPreparation, CollationBreach> {
        match self.prev_blocks(inp, parent) {
            None => Ok(CollationPreparation::WaitingForParent),
            Some(prev_blocks) => {
                let timing = self.timing(inp, parent);
                let seqno = max_seqno(inp.prev_block_ids(prev_blocks));
                if timing.dispatch_time.nanos > inp.now.nanos {
                    Ok(CollationPreparation::Deferred(timing.dispatch_time))
                } else if seqno == u32::MAX {
                    Err(CollationBreach::SeqnoOverflow)
                } else {
                    Ok(
                        CollationPreparation::Ready(
                            PreparedCollation {
                                prev_blocks,
                                timing,
                                new_seqno: (seqno + 1) as u32,
                                is_first_session_block: parent is None,
                            },
                        ),
                    )
                }
            },
        }
    }

    /// Without the collation of `slot`.
    pub open spec fn without(self, slot: SlotIndex) -> CollationView {
        CollationView { precollated: self.precollated.remove(slot), ..self }
    }

    /// With a request for a block in `slot`.
    pub open spec fn requested(self, slot: SlotIndex, parent: Option<CandidateParentInfo>) -> CollationView {
        CollationView {
            precollated: self.precollated.insert(
                slot,
                PrecollatedBlock { request_id: self.next_request_id, result: None, parent },
            ),
            next_request_id: (self.next_request_id + 1) as u32,
            max_slot: match self.max_slot {
                Some(max) if slot.0 <= max.0 => Some(max),
                _ => Some(slot),
            },
            ..self
        }
    }

    /// Without a head, and without what is known of candidates made here.
    pub open spec fn headless(self) -> CollationView {
        CollationView {
            head: None,
            parents: Map::empty(),
            parent_times: Map::empty(),
            ..self
        }
    }

    /// With all requests cancelled.
    pub open spec fn reset(self) -> CollationView {
        let slots = ascending(self.precollated.dom());
        CollationView {
            precollated: Map::empty(),
            max_slot: None,
            active: None,
            actions: self.actions + cancels(self.precollated, slots) + forgets(slots),
            ..self
        }.headless()
    }

    /// With the next collation a block's time away.
    pub open spec fn paced(self, inp: CollationInputs) -> CollationView {
        CollationView { earliest: Some(inp.next_block_time()), ..self }
    }

    /// With finalization observed.
    pub open spec fn refreshed(self, inp: CollationInputs) -> CollationView {
        if advances(inp.consensus@.last_consensus, self.observed_seqno) {
            CollationView {
                observed_seqno: inp.consensus@.last_consensus,
                finalized_at: Some(inp.now),
                ..self
            }
        } else {
            self
        }
    }

    /// Whether finalization is recent enough for empty blocks.
    pub open spec fn empties_allowed(self, inp: CollationInputs) -> bool {
        match self.finalized_at {
            Some(at) => match at.plus(inp.opts.no_empty_blocks_on_error_timeout) {
                Some(deadline) => inp.now.nanos <= deadline.nanos,
                None => true,
            },
            None => false,
        }
    }

    /// Whether the running collation has this number.
    pub open spec fn runs(self, request_id: u32) -> bool {
        match self.active {
            Some(active) => active.request_id == request_id,
            None => false,
        }
    }

    /// Without the running collation, if it has this number.
    pub open spec fn released(self, request_id: u32) -> CollationView {
        if self.runs(request_id) {
            CollationView { active: None, ..self }
        } else {
            self
        }
    }

    /// Whether a collation runs for a window that is over.
    pub open spec fn is_stuck(self, inp: CollationInputs) -> bool {
        match self.active {
            Some(active) => active.window != inp.window,
            None => false,
        }
    }

    /// Without a running collation of a window that is over.
    pub open spec fn unstuck(self, inp: CollationInputs) -> CollationView {
        if self.is_stuck(inp) {
            let slot = self.active->Some_0.slot_dispatched;
            let cancelled = if self.precollated.dom().contains(slot) {
                self.act(CollationAction::Cancel(self.precollated[slot].request_id))
            } else {
                self
            };
            CollationView {
                active: None,
                ..cancelled.without(slot).act(
                    CollationAction::Forget(slot, ForgetReason::StaleWindowCleared),
                )
            }
        } else {
            self
        }
    }

    /// Whether there are collations, or a head, of another window.
    pub open spec fn is_stale(self, inp: CollationInputs) -> bool {
        match self.head {
            Some(head) => head.window != inp.window,
            None => exists|slot: SlotIndex| #[trigger]
                self.precollated.dom().contains(slot) && !inp.in_window(slot),
        }
    }

    /// A candidate that is to be published, unless its window is over or it is
    /// empty without a parent.
    pub open spec fn offered(
        self,
        inp: CollationInputs,
        slot: SlotIndex,
        parent: Option<CandidateParentInfo>,
        result: CollationResult,
        funnel_slot: Option<SlotIndex>,
        next: Option<SlotIndex>,
    ) -> (CollationView, Option<PublishRequest>) {
        if !inp.in_window(slot) {
            (self.headless(), None)
        } else if result is Empty && parent is None {
            (self, None)
        } else {
            (self, Some(PublishRequest { slot, parent, result, funnel_slot, next }))
        }
    }

    /// A candidate that is to be published before the slot after it is next.
    pub open spec fn offered_then_next(
        self,
        inp: CollationInputs,
        slot: SlotIndex,
        parent: Option<CandidateParentInfo>,
        result: CollationResult,
        funnel_slot: Option<SlotIndex>,
    ) -> (CollationView, Result<Completed, CollationBreach>) {
        if slot.0 == u32::MAX {
            (self, Err(CollationBreach::SlotOverflow))
        } else {
            let next = SlotIndex((slot.0 + 1) as u32);
            let (s, request) = self.offered(inp, slot, parent, result, funnel_slot, Some(next));
            match request {
                Some(r) => (s, Ok(Completed::Publish(r))),
                None => (s, Ok(Completed::Then(next))),
            }
        }
    }

    /// A block that is to be published in the slot it was asked for.
    pub open spec fn generated(
        self,
        inp: CollationInputs,
        slot: SlotIndex,
        result: CollationResult,
    ) -> (CollationView, Result<Completed, CollationBreach>) {
        self.without(slot).offered_then_next(
            inp,
            slot,
            self.locked_parent(slot),
            result,
            Some(slot),
        )
    }

    /// The head, if it stands at `slot` or later in the current window.
    pub open spec fn head_past(self, inp: CollationInputs, slot: SlotIndex) -> Option<LocalChainHead> {
        match self.head {
            Some(head) if head.window == inp.window && head.slot.0 >= slot.0 => Some(head),
            _ => None,
        }
    }

    /// After a collation gave a result.
    ///
    /// A result for another window is dropped. If the slots of the running
    /// collation were filled meanwhile, its block goes behind the fillers. A
    /// block that nobody waits for is dropped.
    pub open spec fn completed(
        self,
        inp: CollationInputs,
        slot: SlotIndex,
        request_id: u32,
        result: CollationResult,
    ) -> (CollationView, Result<Completed, CollationBreach>) {
        let s = self.released(request_id);
        let filled = if self.runs(request_id) {
            s.head_past(inp, slot)
        } else {
            None
        };
        if !inp.in_window(slot) {
            (
                s.act(CollationAction::Forget(slot, ForgetReason::StaleWindowResult)).without(slot),
                Ok(Completed::Done),
            )
        } else if filled is Some {
            let head = filled->Some_0;
            if head.slot.0 == u32::MAX {
                (s, Err(CollationBreach::SlotOverflow))
            } else {
                s.without(slot).offered_then_next(
                    inp,
                    SlotIndex((head.slot.0 + 1) as u32),
                    Some(head.parent_info),
                    result,
                    Some(slot),
                )
            }
        } else if slot.0 > inp.first_non_progressed.0 && !s.precollated.dom().contains(slot) {
            (
                s.act(CollationAction::Forget(slot, ForgetReason::MissingEntry)),
                Ok(Completed::Done),
            )
        } else if slot.0 > inp.first_non_progressed.0 && s.has_result(slot) {
            (s, Ok(Completed::Done))
        } else {
            s.generated(inp, slot, result)
        }
    }

    /// After an empty block was made at once instead of asking for one.
    pub open spec fn empty_attempt(
        self,
        inp: CollationInputs,
        slot: SlotIndex,
        parent: Option<CandidateParentInfo>,
        parent_block_id: BlockIdExt,
    ) -> (CollationView, Step) {
        if self.next_request_id == u32::MAX {
            (self, Err(CollationBreach::RequestIdOverflow))
        } else {
            let (s, done) = self.requested(slot, parent).completed(
                inp,
                slot,
                self.next_request_id,
                CollationResult::Empty { parent_block_id },
            );
            match done {
                Err(b) => (s, Err(b)),
                Ok(Completed::Publish(r)) => (s.paced(inp), Ok(Some(r))),
                Ok(_) => (s.paced(inp), Ok(None)),
            }
        }
    }

    /// The cutoffs that a new collation gets.
    pub open spec fn fresh_deadlines(inp: CollationInputs, slot: SlotIndex, timing: CollationTiming) -> CollationDeadlineContext {
        let (soft_deadline, hard_deadline) = deadlines_of(
            slot,
            timing.min_gen_time,
            inp.opts.target_rate,
            inp.desc.window_len(),
            inp.desc.shard_ident().masterchain(),
        );
        CollationDeadlineContext {
            soft_deadline,
            hard_deadline,
            budget_anchor: timing.dispatch_time,
        }
    }

    /// After a block was asked for.
    pub open spec fn dispatched(
        self,
        inp: CollationInputs,
        slot: SlotIndex,
        parent: Option<CandidateParentInfo>,
        prepared: PreparedCollation,
        pinned: Option<CollationDeadlineContext>,
    ) -> (CollationView, Step) {
        let count = inp.prev_block_ids(prepared.prev_blocks).len();
        if self.next_request_id == u32::MAX {
            (self, Err(CollationBreach::RequestIdOverflow))
        } else if count == 0 || count > 2 {
            (self, Err(CollationBreach::PreviousBlocks))
        } else {
            let deadlines = match pinned {
                Some(d) => d,
                None => CollationView::fresh_deadlines(inp, slot, prepared.timing),
            };
            let request_id = self.next_request_id;
            let next_slot_deadline = prepared.timing.min_gen_time.plus_or_same(
                inp.opts.target_rate,
            );
            let s = CollationView {
                active: Some(
                    RealCollationState {
                        window: inp.desc.window(slot),
                        slot_dispatched: slot,
                        request_id,
                        next_slot_deadline,
                        deadlines,
                    },
                ),
                ..self.requested(slot, parent)
            };
            (
                s.act(CollationAction::SlotWake(slot, request_id, next_slot_deadline)).paced(
                    inp,
                ).act(
                    CollationAction::Generate(
                        GenerateRequest {
                            slot,
                            request_id,
                            source: roundless_source(inp.desc.local()),
                            parent,
                            prev_blocks: prepared.prev_blocks,
                            new_seqno: prepared.new_seqno,
                            min_gen_time: prepared.timing.min_gen_time,
                            deadlines,
                        },
                    ),
                ),
                Ok(None),
            )
        }
    }

    /// With generation for `slot` no longer under way, if `clear` says so.
    pub open spec fn unclaimed(self, slot: SlotIndex, clear: bool) -> CollationView {
        if clear {
            self.act(CollationAction::SetPending(slot, false))
        } else {
            self
        }
    }

    /// After an attempt to collate for `slot`: nothing happens while another
    /// collation runs or the parent is not known; it may be too early; the
    /// block may have to be empty; else it is asked for.
    pub open spec fn attempted(
        self,
        inp: CollationInputs,
        slot: SlotIndex,
        parent: Option<CandidateParentInfo>,
        first_attempt: bool,
        pinned: Option<CollationDeadlineContext>,
    ) -> (CollationView, Step) {
        if self.active is Some {
            (self.unclaimed(slot, first_attempt), Ok(None))
        } else {
            match self.preparation(inp, parent) {
                Err(b) => (self, Err(b)),
                Ok(CollationPreparation::Deferred(at)) => (
                    self.unclaimed(slot, first_attempt).act(CollationAction::WakeAt(at)),
                    Ok(None),
                ),
                Ok(CollationPreparation::WaitingForParent) => (
                    self.unclaimed(slot, first_attempt),
                    Ok(None),
                ),
                Ok(CollationPreparation::Ready(prepared)) => {
                    let splits = self.parent_splits(inp, prepared.prev_blocks);
                    if inp.must_be_empty(prepared.new_seqno, splits) {
                        match prepared.prev_blocks {
                            PrevBlocks::Parent(block) => self.empty_attempt(
                                inp,
                                slot,
                                parent,
                                block,
                            ),
                            PrevBlocks::SessionStart => (
                                self,
                                Err(CollationBreach::EmptyFirstBlock),
                            ),
                        }
                    } else if first_attempt && slot.0 < inp.first_non_progressed.0 {
                        (self, Err(CollationBreach::ProgressedSlot))
                    } else {
                        self.dispatched(inp, slot, parent, prepared, pinned)
                    }
                },
            }
        }
    }

    /// Whether a collation for `slot` may begin.
    pub open spec fn may_begin(self, inp: CollationInputs, slot: SlotIndex) -> bool {
        !self.precollated.dom().contains(slot) && inp.leads(slot)
    }

    /// After the first attempt to collate for `slot`.
    pub open spec fn invoked(
        self,
        inp: CollationInputs,
        slot: SlotIndex,
        parent: Option<CandidateParentInfo>,
    ) -> (CollationView, Step) {
        if !self.may_begin(inp, slot) {
            (self, Ok(None))
        } else if self.last_generated is Some && slot.0 < self.last_generated->Some_0.0 {
            (self, Err(CollationBreach::SlotsOutOfOrder))
        } else {
            CollationView { last_generated: Some(slot), ..self }.attempted(
                inp,
                slot,
                parent,
                true,
                None,
            )
        }
    }

    /// After another attempt to collate for `slot`.
    pub open spec fn restarted(
        self,
        inp: CollationInputs,
        slot: SlotIndex,
        pinned: Option<CollationDeadlineContext>,
    ) -> (CollationView, Step) {
        if !self.may_begin(inp, slot) {
            (self, Ok(None))
        } else {
            self.attempted(inp, slot, inp.available_parent(slot), false, pinned)
        }
    }

    /// The slot to collate for ahead of time if `slot` is asked for.
    pub open spec fn precollation_target(self, slot: SlotIndex) -> Result<SlotIndex, CollationBreach> {
        if self.precollated.dom().contains(slot) && self.max_slot is Some && self.has_result(
            self.max_slot->Some_0,
        ) {
            if self.max_slot->Some_0.0 == u32::MAX {
                Err(CollationBreach::SlotOverflow)
            } else {
                Ok(SlotIndex((self.max_slot->Some_0.0 + 1) as u32))
            }
        } else {
            Ok(slot)
        }
    }

    /// The head, if it stands right before `slot` in the window of `slot`.
    pub open spec fn head_before(self, inp: CollationInputs, slot: SlotIndex) -> Option<
        CandidateParentInfo,
    > {
        match self.head {
            Some(head) if head.window == inp.desc.window(slot) && head.slot.0 + 1 == slot.0 => Some(
                head.parent_info,
            ),
            _ => None,
        }
    }

    /// After an attempt to collate ahead of time: the block follows the head if
    /// that stands right before its slot, else what consensus offers.
    pub open spec fn precollated_next(self, inp: CollationInputs, slot: SlotIndex) -> (
        CollationView,
        Step,
    ) {
        if self.precollated.dom().len() >= inp.desc.window_len() - 1 {
            (self, Ok(None))
        } else {
            match self.precollation_target(slot) {
                Err(b) => (self, Err(b)),
                Ok(target) => {
                    let head = self.head_before(inp, target);
                    let known = head is Some || inp.available@.dom().contains(target);
                    let parent = if head is Some {
                        head
                    } else {
                        inp.available_parent(target)
                    };
                    if !inp.in_window(target) || !inp.leads(target) || !known {
                        (self, Ok(None))
                    } else if parent is Some && self.resolve_parent(inp, parent->Some_0) is None {
                        (self, Ok(None))
                    } else {
                        self.invoked(inp, target, parent)
                    }
                },
            }
        }
    }

    /// After a finished collation went on.
    pub open spec fn continued(self, inp: CollationInputs, done: Result<Completed, CollationBreach>) -> (
        CollationView,
        Step,
    ) {
        match done {
            Err(b) => (self, Err(b)),
            Ok(Completed::Publish(r)) => (self, Ok(Some(r))),
            Ok(Completed::Then(slot)) => self.precollated_next(inp, slot),
            Ok(Completed::Done) => (self, Ok(None)),
        }
    }

    /// After the slot behind the head was looked at.
    pub open spec fn refilled(self, inp: CollationInputs) -> (CollationView, Step) {
        match self.head {
            None => (self, Ok(None)),
            Some(head) => if head.slot.0 == u32::MAX {
                (self, Err(CollationBreach::SlotOverflow))
            } else {
                let next = SlotIndex((head.slot.0 + 1) as u32);
                if head.window == inp.window && !inp.generated@.dom().contains(next)
                    && !inp.pending@.dom().contains(next) && !self.precollated.dom().contains(
                    next,
                ) {
                    self.precollated_next(inp, next)
                } else {
                    (self, Ok(None))
                }
            },
        }
    }

    /// After the local validator began with its slot: a block that was collated
    /// ahead of time is published, else one is asked for.
    pub open spec fn started(
        self,
        inp: CollationInputs,
        slot: SlotIndex,
        parent: Option<CandidateParentInfo>,
    ) -> (CollationView, Step) {
        if self.has_result(slot) {
            let result = self.precollated[slot].result->Some_0;
            let (s, done) = self.generated(inp, slot, result);
            match done {
                Err(b) => (s, Err(b)),
                Ok(_) => s.paced(inp).continued(inp, done),
            }
        } else {
            self.invoked(inp, slot, parent)
        }
    }

    /// After it was looked at whether to make a block for the current slot.
    pub open spec fn checked(self, inp: CollationInputs) -> (CollationView, Step) {
        let s = self.refreshed(inp).unstuck(inp);
        let slot = inp.first_non_progressed;
        if s.earliest is Some && inp.now.nanos < s.earliest->Some_0.nanos {
            (s.act(CollationAction::WakeAt(s.earliest->Some_0)), Ok(None))
        } else if inp.desc.window(slot).0 < inp.window.0 {
            (s, Ok(None))
        } else {
            let t = if s.is_stale(inp) {
                s.reset()
            } else {
                s
            };
            let parent = inp.available_parent(slot);
            if inp.generated@.dom().contains(slot) || inp.pending@.dom().contains(slot) {
                t.refilled(inp)
            } else if !inp.leads(slot) || !inp.available@.dom().contains(slot) {
                (t, Ok(None))
            } else if parent is Some && t.resolve_parent(inp, parent->Some_0) is None {
                (t.act(CollationAction::RequestParent(parent->Some_0.id())), Ok(None))
            } else {
                t.act(CollationAction::SetPending(slot, true)).started(inp, slot, parent)
            }
        }
    }

    /// What an empty candidate in `slot` would follow while the collation for
    /// `dispatched` runs: the head right before it, or in the first such slot
    /// the parent of the collation itself.
    pub open spec fn filler(self, inp: CollationInputs, slot: SlotIndex, dispatched: SlotIndex) -> Option<
        (CandidateParentInfo, BlockIdExt),
    > {
        let parent = match self.head_before(inp, slot) {
            Some(p) => Some(p),
            None => if slot == dispatched {
                self.locked_parent(dispatched)
            } else {
                None
            },
        };
        match parent {
            Some(p) => match self.resolve_parent(inp, p) {
                Some(block) => Some((p, block)),
                None => None,
            },
            None => None,
        }
    }

    /// When the slot after the one that ended at `deadline` ends.
    pub open spec fn next_deadline(inp: CollationInputs, deadline: TimePoint) -> TimePoint {
        let next = deadline.plus_or_same(inp.opts.target_rate);
        if next.nanos <= inp.now.nanos {
            inp.next_block_time()
        } else {
            next
        }
    }

    /// After a slot ended while its collation runs: an empty candidate fills
    /// it, if it can.
    pub open spec fn slot_ended(
        self,
        inp: CollationInputs,
        loop_slot: SlotIndex,
        request_id: u32,
        deadline: TimePoint,
    ) -> (CollationView, Step) {
        if !self.runs(request_id) {
            (self, Ok(None))
        } else if self.is_stuck(inp) {
            (self.unstuck(inp), Ok(None))
        } else if !inp.in_window(loop_slot) {
            (self, Ok(None))
        } else {
            let active = self.active->Some_0;
            let s = self.refreshed(inp);
            let filler = if s.empties_allowed(inp) {
                s.filler(inp, loop_slot, active.slot_dispatched)
            } else {
                None
            };
            let next_deadline = CollationView::next_deadline(inp, deadline);
            let t = CollationView {
                active: Some(RealCollationState { next_slot_deadline: next_deadline, ..active }),
                ..s
            };
            match filler {
                None => (
                    t.act(CollationAction::SlotWake(loop_slot, request_id, next_deadline)),
                    Ok(None),
                ),
                Some((parent, block)) => if loop_slot.0 == u32::MAX {
                    (s, Err(CollationBreach::SlotOverflow))
                } else {
                    let next = SlotIndex((loop_slot.0 + 1) as u32);
                    (
                        t.act(CollationAction::SlotWake(next, request_id, next_deadline)),
                        Ok(
                            Some(
                                PublishRequest {
                                    slot: loop_slot,
                                    parent: Some(parent),
                                    result: CollationResult::Empty { parent_block_id: block },
                                    funnel_slot: None,
                                    next: None,
                                },
                            ),
                        ),
                    )
                },
            }
        }
    }

    /// Where an empty candidate goes after the collation for `slot` failed, and
    /// what it follows.
    pub open spec fn recovery(self, inp: CollationInputs, slot: SlotIndex, locked: Option<
        CandidateParentInfo,
    >) -> (int, Option<CandidateParentInfo>) {
        match self.head_past(inp, slot) {
            Some(head) => (head.slot.0 + 1, Some(head.parent_info)),
            None => (slot.0 as int, locked),
        }
    }

    /// After a collation failed: if finalization goes on and the parent is
    /// known, an empty candidate takes its place; else it is restarted later
    /// with the cutoffs that it had.
    pub open spec fn failed(self, inp: CollationInputs, slot: SlotIndex, request_id: u32) -> (
        CollationView,
        Step,
    ) {
        let pinned = if self.runs(request_id) {
            Some(self.active->Some_0.deadlines)
        } else {
            None
        };
        let s = self.released(request_id).without(slot);
        if slot.0 < inp.first_non_progressed.0 || !inp.in_window(slot) {
            (s, Ok(None))
        } else {
            let t = s.refreshed(inp);
            let (place, parent) = t.recovery(inp, slot, self.locked_parent(slot));
            let block = match parent {
                Some(p) => t.resolve_parent(inp, p),
                None => None,
            };
            if t.empties_allowed(inp) && block is Some {
                if place > u32::MAX {
                    (t, Err(CollationBreach::SlotOverflow))
                } else {
                    let (u, done) = t.offered_then_next(
                        inp,
                        SlotIndex(place as u32),
                        parent,
                        CollationResult::Empty { parent_block_id: block->Some_0 },
                        None,
                    );
                    u.continued(inp, done)
                }
            } else {
                (
                    t.act(
                        CollationAction::Restart(
                            slot,
                            pinned,
                            inp.now.plus_or_same(
                                TimeSpan { nanos: COLLATION_ERROR_RESTART_BACKOFF },
                            ),
                        ),
                    ),
                    Ok(None),
                )
            }
        }
    }

    /// After the collator answered a request, with a block or none.
    pub open spec fn called_back(
        self,
        inp: CollationInputs,
        slot: SlotIndex,
        request_id: u32,
        cancelled: bool,
        answer: Option<CollatedBlock>,
    ) -> (CollationView, Step) {
        if cancelled {
            (self.act(CollationAction::Forget(slot, ForgetReason::Cancelled)), Ok(None))
        } else {
            match answer {
                Some(block) => {
                    let (s, done) = self.completed(
                        inp,
                        slot,
                        request_id,
                        CollationResult::Block(block),
                    );
                    s.continued(inp, done)
                },
                None => self.failed(inp, slot, request_id),
            }
        }
    }

    /// After the time for a restart came: there is none if consensus is done
    /// with the slot, a collation runs, a later slot was begun, or there is a
    /// result.
    pub open spec fn restart_due(
        self,
        inp: CollationInputs,
        slot: SlotIndex,
        pinned: Option<CollationDeadlineContext>,
    ) -> (CollationView, Step) {
        if slot.0 < inp.first_non_progressed.0 || self.active is Some || (self.max_slot is Some
            && self.max_slot->Some_0 != slot) || self.has_result(slot) {
            (self, Ok(None))
        } else {
            self.restarted(inp, slot, pinned)
        }
    }

    /// With a new candidate as the head.
    pub open spec fn published(
        self,
        inp: CollationInputs,
        slot: SlotIndex,
        id: RawCandidateId,
        block_id: BlockIdExt,
        gen_utime_ms: Option<u64>,
        persisted: bool,
    ) -> CollationView {
        let s = if persisted {
            self.act(CollationAction::Persist(id))
        } else {
            self
        };
        CollationView {
            parents: s.parents.insert(id, block_id),
            parent_times: match gen_utime_ms {
                Some(ms) => s.parent_times.insert(id, ms),
                None => s.parent_times,
            },
            head: Some(
                LocalChainHead {
                    window: inp.desc.window(slot),
                    slot,
                    parent_info: CandidateParentInfo { slot, hash: id.hash },
                    gen_utime_ms,
                },
            ),
            ..s
        }.act(CollationAction::Broadcast(id)).act(CollationAction::SelfReceive(id)).act(
            CollationAction::SetPending(slot, false),
        ).act(CollationAction::SetGenerated(slot)).act(CollationAction::SetSent(slot))
    }

    /// After the candidate of `request` was built, or could not be.
    pub open spec fn built(
        self,
        inp: CollationInputs,
        request: PublishRequest,
        desc: Option<GeneratedBlockDesc>,
    ) -> (CollationView, Step) {
        let s = match desc {
            Some(d) => self.published(
                inp,
                request.slot,
                RawCandidateId { slot: request.slot, hash: d.candidate_hash },
                d.block_id_ext,
                d.gen_utime_ms,
                d.has_info(request.parent, request.result is Empty),
            ),
            None => self,
        };
        match request.next {
            Some(next) => s.precollated_next(inp, next),
            None => (s, Ok(None)),
        }
    }
}

/// The collation pipeline of the local validator.
pub struct CollationController {
    precollated_blocks: AssocMap<SlotIndex, PrecollatedBlock>,
    precollated_blocks_next_request_id: u32,
    precollated_blocks_max_slot: Option<SlotIndex>,
    earliest_collation_time: Option<TimePoint>,
    local_chain_head: Option<LocalChainHead>,
    last_generated_slot: Option<SlotIndex>,
    generated_parent_cache: AssocMap<RawCandidateId, BlockIdExt>,
    generated_parent_gen_utime_ms_cache: AssocMap<RawCandidateId, u64>,
    block_generation_active: Option<RealCollationState>,
    last_consensus_finalized_at: Option<TimePoint>,
    last_observed_finalized_seqno: Option<u32>,
    actions: Vec<CollationAction>,
}

impl View for CollationController {
    type V = CollationView;

    closed spec fn view(&self) -> CollationView {
        CollationView {
            precollated: self.precollated_blocks@,
            next_request_id: self.precollated_blocks_next_request_id,
            max_slot: self.precollated_blocks_max_slot,
            earliest: self.earliest_collation_time,
            head: self.local_chain_head,
            last_generated: self.last_generated_slot,
            parents: self.generated_parent_cache@,
            parent_times: self.generated_parent_gen_utime_ms_cache@,
            active: self.block_generation_active,
            finalized_at: self.last_consensus_finalized_at,
            observed_seqno: self.last_observed_finalized_seqno,
            actions: self.actions@,
        }
    }
}

impl CollationController {
    /// An empty pipeline.
    pub fn new() -> (r: Self)
        ensures
            r@ == (CollationView {
                precollated: Map::empty(),
                next_request_id: 0,
                max_slot: None,
                earliest: None,
                head: None,
                last_generated: None,
                parents: Map::empty(),
                parent_times: Map::empty(),
                active: None,
                finalized_at: None,
                observed_seqno: None,
                actions: Seq::empty(),
            }),
    {
        CollationController {
            precollated_blocks: AssocMap::new(),
            precollated_blocks_next_request_id: 0,
            precollated_blocks_max_slot: None,
            earliest_collation_time: None,
            local_chain_head: None,
            last_generated_slot: None,
            generated_parent_cache: AssocMap::new(),
            generated_parent_gen_utime_ms_cache: AssocMap::new(),
            block_generation_active: None,
            last_consensus_finalized_at: None,
            last_observed_finalized_seqno: None,
            actions: Vec::new(),
        }
    }

    /// Number of slots with a collation.
    pub fn precollated_count(&self) -> (n: usize)
        ensures
            n == self@.precollated.dom().len(),
    {
        self.precollated_blocks.len()
    }

    /// Whether `slot` has a collation.
    pub fn precollated_contains(&self, slot: SlotIndex) -> (r: bool)
        ensures
            r == self@.precollated.dom().contains(slot),
    {
        self.precollated_blocks.contains_key(&slot)
    }

    /// The collation of `slot`.
    pub fn precollated(&self, slot: SlotIndex) -> (r: Option<&PrecollatedBlock>)
        ensures
            r is Some <==> self@.precollated.dom().contains(slot),
            r matches Some(block) ==> *block == self@.precollated[slot],
    {
        self.precollated_blocks.get(&slot)
    }

    /// The slots with a collation, in ascending order.
    pub fn precollated_slots(&self) -> (r: Vec<SlotIndex>)
        ensures
            r@ == ascending(self@.precollated.dom()),
            is_sorted(r@),
            r@.no_duplicates(),
            r@.to_set() == self@.precollated.dom(),
    {
        let mut slots: Vec<SlotIndex> = self.precollated_blocks.keys();
        let ghost listed = slots@;
        sort_by_rank(&mut slots);
        proof {
            sorting_is_stable(listed);
            reordering_keeps_members(listed, slots@);
            lemma_ascending(slots@, self@.precollated.dom());
        }
        slots
    }

    /// Sets the collation of `slot`.
    pub fn insert_precollated(&mut self, slot: SlotIndex, block: PrecollatedBlock) -> (r: Option<
        PrecollatedBlock,
    >)
        ensures
            final(self)@ == (CollationView {
                precollated: old(self)@.precollated.insert(slot, block),
                ..old(self)@
            }),
            r == lookup(old(self)@.precollated, slot),
    {
        self.precollated_blocks.insert(slot, block)
    }

    /// When the next collation may begin.
    pub fn earliest_collation_time(&self) -> (r: Option<TimePoint>)
        ensures
            r == self@.earliest,
    {
        self.earliest_collation_time
    }

    /// Sets when the next collation may begin.
    pub fn set_earliest_collation_time(&mut self, time: Option<TimePoint>)
        ensures
            final(self)@ == (CollationView { earliest: time, ..old(self)@ }),
    {
        self.earliest_collation_time = time;
    }

    /// Puts the next collation a block's time away.
    pub fn update_collation_pacing(&mut self, inputs: &CollationInputs)
        ensures
            final(self)@ == old(self)@.paced(*inputs),
    {
        self.earliest_collation_time = Some(inputs.get_next_block_time());
    }

    /// The last candidate of the window.
    pub fn local_chain_head(&self) -> (r: Option<LocalChainHead>)
        ensures
            r == self@.head,
    {
        self.local_chain_head
    }

    /// Sets the last candidate of the window.
    pub fn set_local_chain_head(&mut self, head: Option<LocalChainHead>)
        ensures
            final(self)@ == (CollationView { head, ..old(self)@ }),
    {
        self.local_chain_head = head;
    }

    /// Records the block of a candidate that was made here.
    pub fn insert_generated_parent(&mut self, candidate_id: RawCandidateId, block_id: BlockIdExt) -> (r:
        Option<BlockIdExt>)
        ensures
            final(self)@ == (CollationView {
                parents: old(self)@.parents.insert(candidate_id, block_id),
                ..old(self)@
            }),
            r == lookup(old(self)@.parents, candidate_id),
    {
        self.generated_parent_cache.insert(candidate_id, block_id)
    }

    /// A candidate that was made here with the given block.
    pub fn find_generated_parent_id_by_block_id(&self, block_id: &BlockIdExt) -> (r: Option<
        RawCandidateId,
    >)
        ensures
            match r {
                Some(id) => self@.parents.dom().contains(id) && self@.parents[id] == *block_id,
                None => forall|id: RawCandidateId| #[trigger]
                    self@.parents.dom().contains(id) ==> self@.parents[id] != *block_id,
            },
    {
        let ids: Vec<RawCandidateId> = self.generated_parent_cache.keys();
        let mut i: usize = 0;
        while i < ids.len()
            invariant
                i <= ids@.len(),
                forall|id: RawCandidateId|
                    ids@.contains(id) <==> self@.parents.dom().contains(id),
                forall|j: int| 0 <= j < i ==> self@.parents[#[trigger] ids@[j]] != *block_id,
            decreases ids@.len() - i,
        {
            assert(ids@.contains(ids@[i as int]));
            match self.generated_parent_cache.get(&ids[i]) {
                Some(block) => if *block == *block_id {
                    return Some(ids[i]);
                },
                None => {},
            }
            i += 1;
        }
        assert forall|id: RawCandidateId| #[trigger]
            self@.parents.dom().contains(id) implies self@.parents[id] != *block_id by {
            assert(ids@.contains(id));
        }
        None
    }

    /// Takes the actions that were not fetched yet.
    pub fn take_actions(&mut self) -> (r: Vec<CollationAction>)
        ensures
            r@ == old(self)@.actions,
            final(self)@ == (CollationView { actions: Seq::empty(), ..old(self)@ }),
    {
        let mut taken: Vec<CollationAction> = Vec::new();
        std::mem::swap(&mut taken, &mut self.actions);
        taken
    }

    fn act(&mut self, action: CollationAction)
        ensures
            final(self)@ == old(self)@.act(action),
    {
        self.actions.push(action);
    }

    /// Drops the collation of `slot` and says whether there was one.
    pub fn remove_precollated_block(&mut self, slot: SlotIndex) -> (r: bool)
        ensures
            final(self)@ == old(self)@.without(slot),
            r == old(self)@.precollated.dom().contains(slot),
    {
        self.precollated_blocks.remove(&slot).is_some()
    }

    /// Forgets the head, and what is known of candidates made here.
    pub fn invalidate_local_chain_head(&mut self)
        ensures
            final(self)@ == old(self)@.headless(),
    {
        self.local_chain_head = None;
        self.generated_parent_cache.clear();
        self.generated_parent_gen_utime_ms_cache.clear();
    }

    /// The block of a parent: one made here, or else one in the book.
    pub fn resolve_parent_block_id(
        &self,
        parent: &CandidateParentInfo,
        inputs: &CollationInputs,
    ) -> (r: Option<BlockIdExt>)
        ensures
            r == self@.resolve_parent(*inputs, *parent),
    {
        let id: RawCandidateId = parent.to_id();
        match self.generated_parent_cache.get(&id) {
            Some(block) => Some(*block),
            None => match inputs.book.received(&id) {
                Some(rec) => Some(rec.block_id),
                None => None,
            },
        }
    }

    fn local_chain_head_gen_utime_ms(&self, parent: &CandidateParentInfo) -> (r: Option<u64>)
        ensures
            r == self@.head_time(*parent),
    {
        match self.local_chain_head {
            Some(head) => if head.parent_info == *parent {
                head.gen_utime_ms
            } else {
                None
            },
            None => None,
        }
    }

    /// Generation time of a parent in milliseconds, if known.
    pub fn resolve_parent_gen_utime_ms_via_book(
        &self,
        parent: &CandidateParentInfo,
        book: &CandidateBook,
    ) -> (r: Option<u64>)
        ensures
            r == self@.parent_time(book@.received, *parent),
    {
        let id: RawCandidateId = parent.to_id();
        match self.generated_parent_gen_utime_ms_cache.get(&id) {
            Some(ms) => Some(*ms),
            None => match book.received(&id) {
                Some(rec) => match rec.gen_utime_ms {
                    Some(ms) => Some(ms),
                    None => self.local_chain_head_gen_utime_ms(parent),
                },
                None => self.local_chain_head_gen_utime_ms(parent),
            },
        }
    }

    /// Whether the shard splits after the only block that a new one follows.
    pub fn resolve_parent_before_split_flag(
        &self,
        inputs: &CollationInputs,
        prev: &PrevBlocks,
    ) -> (r: Option<bool>)
        ensures
            r == self@.parent_splits(*inputs, *prev),
    {
        match prev {
            PrevBlocks::Parent(block) => inputs.get_before_split_flag(block),
            PrevBlocks::SessionStart => if inputs.session_start.len() == 1 {
                inputs.get_before_split_flag(&inputs.session_start[0])
            } else {
                None
            },
        }
    }

    /// The blocks that a block after `parent` follows, if they are known.
    pub fn resolve_collation_prev_block_ids(
        &self,
        parent: &Option<CandidateParentInfo>,
        inputs: &CollationInputs,
    ) -> (r: Option<PrevBlocks>)
        ensures
            r == self@.prev_blocks(*inputs, *parent),
    {
        match parent {
            Some(p) => match self.resolve_parent_block_id(p, inputs) {
                Some(block) => Some(PrevBlocks::Parent(block)),
                None => None,
            },
            None => Some(PrevBlocks::SessionStart),
        }
    }

    /// Timing of a collation after `parent`.
    pub fn compute_collation_timing(
        &self,
        parent: &Option<CandidateParentInfo>,
        inputs: &CollationInputs,
    ) -> (r: CollationTiming)
        ensures
            r == self@.timing(*inputs, *parent),
    {
        let target_rate: TimeSpan = inputs.opts.target_rate;
        let parent_gen_utime_ms: Option<u64> = match parent {
            Some(p) => self.resolve_parent_gen_utime_ms_via_book(p, inputs.book),
            None => None,
        };
        let due: Option<TimePoint> = match parent_gen_utime_ms {
            Some(ms) => TimePoint::epoch().checked_add(
                TimeSpan::from_millis(ms).saturating_add(target_rate),
            ),
            None => None,
        };
        let min_gen_time: TimePoint = match due {
            Some(t) => t.later_of(inputs.now).earlier_of(inputs.get_next_block_time()),
            None => inputs.now,
        };
        let start_collate_before: TimeSpan = if inputs.desc.get_shard().is_masterchain() {
            TimeSpan::zero()
        } else {
            target_rate
        };
        let dispatch_time: TimePoint = min_gen_time.sub_or_epoch(start_collate_before);
        CollationTiming { dispatch_time, min_gen_time, start_collate_before, parent_gen_utime_ms }
    }

    /// Whether a collation after `parent` can begin.
    pub fn prepare_collation(
        &self,
        parent: &Option<CandidateParentInfo>,
        inputs: &CollationInputs,
    ) -> (r: Result<CollationPreparation, CollationBreach>)
        ensures
            r == self@.preparation(*inputs, *parent),
    {
        let prev_blocks: PrevBlocks = match self.resolve_collation_prev_block_ids(parent, inputs) {
            Some(prev) => prev,
            None => {
                return Ok(CollationPreparation::WaitingForParent);
            },
        };
        let timing: CollationTiming = self.compute_collation_timing(parent, inputs);
        if timing.dispatch_time.nanos > inputs.now.nanos {
            return Ok(CollationPreparation::Deferred(timing.dispatch_time));
        }
        let (_, seqno): (usize, u32) = inputs.survey_prev_blocks(&prev_blocks);
        if seqno == u32::MAX {
            return Err(CollationBreach::SeqnoOverflow);
        }
        Ok(
            CollationPreparation::Ready(
                PreparedCollation {
                    prev_blocks,
                    timing,
                    new_seqno: seqno + 1,
                    is_first_session_block: parent.is_none(),
                },
            ),
        )
    }

    /// Whether a collation for `slot` may begin: there is none yet, and the
    /// local validator leads.
    pub fn try_begin_collation_slot(&self, inputs: &CollationInputs, slot: SlotIndex) -> (r: Option<
        ValidatorIndex,
    >)
        ensures
            r == (if self@.may_begin(*inputs, slot) {
                Some(inputs.desc.local())
            } else {
                None
            }),
    {
        if self.precollated_contains(slot) {
            return None;
        }
        let self_idx: ValidatorIndex = inputs.desc.get_self_idx();
        if inputs.desc.get_leader(slot) != self_idx {
            return None;
        }
        Some(self_idx)
    }

    fn create_pending_collation_request(
        &mut self,
        slot: SlotIndex,
        parent: Option<CandidateParentInfo>,
    ) -> (r: u32)
        requires
            old(self)@.next_request_id < u32::MAX,
        ensures
            final(self)@ == old(self)@.requested(slot, parent),
            r == old(self)@.next_request_id,
    {
        match self.precollated_blocks_max_slot {
            Some(max) => if slot.0 > max.0 {
                self.precollated_blocks_max_slot = Some(slot);
            },
            None => {
                self.precollated_blocks_max_slot = Some(slot);
            },
        }
        let request_id: u32 = self.precollated_blocks_next_request_id;
        self.precollated_blocks_next_request_id = request_id + 1;
        self.precollated_blocks.insert(
            slot,
            PrecollatedBlock { request_id, result: None, parent },
        );
        request_id
    }

    /// Cancels all collations.
    pub fn reset(&mut self)
        ensures
            final(self)@ == old(self)@.reset(),
    {
        let ghost s = self@;
        let slots: Vec<SlotIndex> = self.precollated_slots();
        let mut i: usize = 0;
        assert(cancels(s.precollated, slots@.take(0)) =~= Seq::<CollationAction>::empty());
        while i < slots.len()
            invariant
                i <= slots@.len(),
                slots@.to_set() == s.precollated.dom(),
                self@ == (CollationView {
                    actions: s.actions + cancels(s.precollated, slots@.take(i as int)),
                    ..s
                }),
            decreases slots@.len() - i,
        {
            assert(slots@.to_set().contains(slots@[i as int]));
            assert(cancels(s.precollated, slots@.take(i as int + 1)) =~= cancels(
                s.precollated,
                slots@.take(i as int),
            ).push(CollationAction::Cancel(s.precollated[slots@[i as int]].request_id)));
            match self.precollated_blocks.get(&slots[i]) {
                Some(block) => {
                    let request_id: u32 = block.request_id;
                    self.act(CollationAction::Cancel(request_id));
                },
                None => {},
            }
            i += 1;
        }
        let ghost cancelled = s.actions + cancels(s.precollated, slots@);
        assert(slots@.take(i as int) =~= slots@);
        self.precollated_blocks.clear();
        self.precollated_blocks_max_slot = None;
        let ghost emptied = self@;
        let mut k: usize = 0;
        assert(forgets(slots@.take(0)) =~= Seq::<CollationAction>::empty());
        while k < slots.len()
            invariant
                k <= slots@.len(),
                emptied.actions == cancelled,
                self@ == (CollationView {
                    actions: cancelled + forgets(slots@.take(k as int)),
                    ..emptied
                }),
            decreases slots@.len() - k,
        {
            assert(forgets(slots@.take(k as int + 1)) =~= forgets(slots@.take(k as int)).push(
                CollationAction::Forget(slots@[k as int], ForgetReason::PipelineReset),
            ));
            self.act(CollationAction::Forget(slots[k], ForgetReason::PipelineReset));
            k += 1;
        }
        assert(slots@.take(k as int) =~= slots@);
        self.invalidate_local_chain_head();
        self.block_generation_active = None;
    }

    /// Notes that finalization moved on.
    pub fn refresh_finalization_timestamp(&mut self, inputs: &CollationInputs)
        ensures
            final(self)@ == old(self)@.refreshed(*inputs),
    {
        let seqno: Option<u32> = inputs.consensus.last_consensus_finalized_seqno();
        let moved: bool = match (seqno, self.last_observed_finalized_seqno) {
            (Some(x), Some(y)) => x > y,
            (Some(_), None) => true,
            _ => false,
        };
        if moved {
            self.last_observed_finalized_seqno = seqno;
            self.last_consensus_finalized_at = Some(inputs.now);
        }
    }

    /// Whether finalization is recent enough for empty blocks.
    pub fn empties_allowed_by_finalization(&self, inputs: &CollationInputs) -> (r: bool)
        ensures
            r == self@.empties_allowed(*inputs),
    {
        match self.last_consensus_finalized_at {
            Some(at) => match at.checked_add(inputs.opts.no_empty_blocks_on_error_timeout) {
                Some(deadline) => inputs.now.nanos <= deadline.nanos,
                None => true,
            },
            None => false,
        }
    }

    fn is_running(&self, request_id: u32) -> (r: bool)
        ensures
            r == self@.runs(request_id),
    {
        match self.block_generation_active {
            Some(active) => active.request_id == request_id,
            None => false,
        }
    }

    fn clear_block_generation_if(&mut self, request_id: u32)
        ensures
            final(self)@ == old(self)@.released(request_id),
    {
        if self.is_running(request_id) {
            self.block_generation_active = None;
        }
    }

    /// Drops a running collation of a window that is over; says whether there
    /// was one.
    pub fn clear_stale_block_generation(&mut self, inputs: &CollationInputs) -> (r: bool)
        ensures
            final(self)@ == old(self)@.unstuck(*inputs),
            r == old(self)@.is_stuck(*inputs),
    {
        let slot: SlotIndex = match self.block_generation_active {
            Some(active) => if active.window != inputs.window {
                active.slot_dispatched
            } else {
                return false;
            },
            None => {
                return false;
            },
        };
        match self.precollated_blocks.get(&slot) {
            Some(block) => {
                let request_id: u32 = block.request_id;
                self.act(CollationAction::Cancel(request_id));
            },
            None => {},
        }
        self.remove_precollated_block(slot);
        self.act(CollationAction::Forget(slot, ForgetReason::StaleWindowCleared));
        self.block_generation_active = None;
        true
    }

    fn has_stale_precollations(&self, inputs: &CollationInputs) -> (r: bool)
        ensures
            r == self@.is_stale(*inputs),
    {
        match self.local_chain_head {
            Some(head) => head.window != inputs.window,
            None => {
                let slots: Vec<SlotIndex> = self.precollated_blocks.keys();
                let mut i: usize = 0;
                while i < slots.len()
                    invariant
                        i <= slots@.len(),
                        self@.head is None,
                        forall|slot: SlotIndex|
                            slots@.contains(slot) <==> self@.precollated.dom().contains(slot),
                        forall|j: int| 0 <= j < i ==> inputs.in_window(#[trigger] slots@[j]),
                    decreases slots@.len() - i,
                {
                    assert(slots@.contains(slots@[i as int]));
                    if inputs.desc.get_window_idx(slots[i]) != inputs.window {
                        assert(self@.precollated.dom().contains(slots@[i as int]));
                        return true;
                    }
                    i += 1;
                }
                assert forall|slot: SlotIndex| #[trigger]
                    self@.precollated.dom().contains(slot) implies inputs.in_window(slot) by {
                    assert(slots@.contains(slot));
                }
                false
            },
        }
    }
}

proof fn lemma_ascending(q: Seq<SlotIndex>, slots: Set<SlotIndex>)
    requires
        is_sorted(q),
        q.no_duplicates(),
        q.to_set() == slots,
    ensures
        q == ascending(slots),
{
    sorted_listing_is_unique(q, ascending(slots));
}

impl CollationController {
    /// Offers a candidate for publication, unless its window is over or it is
    /// empty without a parent.
    pub fn publish_candidate(
        &mut self,
        inputs: &CollationInputs,
        slot: SlotIndex,
        parent: Option<CandidateParentInfo>,
        result: CollationResult,
        funnel_slot: Option<SlotIndex>,
        next: Option<SlotIndex>,
    ) -> (r: Option<PublishRequest>)
        ensures
            (final(self)@, r) == old(self)@.offered(
                *inputs,
                slot,
                parent,
                result,
                funnel_slot,
                next,
            ),
    {
        if inputs.desc.get_window_idx(slot) != inputs.window {
            self.invalidate_local_chain_head();
            return None;
        }
        let is_empty: bool = matches!(result, CollationResult::Empty { .. });
        if is_empty && parent.is_none() {
            return None;
        }
        Some(PublishRequest { slot, parent, result, funnel_slot, next })
    }

    fn publish_then_next(
        &mut self,
        inputs: &CollationInputs,
        slot: SlotIndex,
        parent: Option<CandidateParentInfo>,
        result: CollationResult,
        funnel_slot: Option<SlotIndex>,
    ) -> (r: Result<Completed, CollationBreach>)
        ensures
            (final(self)@, r) == old(self)@.offered_then_next(
                *inputs,
                slot,
                parent,
                result,
                funnel_slot,
            ),
    {
        if slot.0 == u32::MAX {
            return Err(CollationBreach::SlotOverflow);
        }
        let next: SlotIndex = SlotIndex(slot.0 + 1);
        match self.publish_candidate(inputs, slot, parent, result, funnel_slot, Some(next)) {
            Some(request) => Ok(Completed::Publish(request)),
            None => Ok(Completed::Then(next)),
        }
    }

    /// Offers a block in the slot it was asked for, after the parent that was
    /// fixed when its collation began.
    fn generated_block(
        &mut self,
        inputs: &CollationInputs,
        slot: SlotIndex,
        result: CollationResult,
    ) -> (r: Result<Completed, CollationBreach>)
        ensures
            (final(self)@, r) == old(self)@.generated(*inputs, slot, result),
    {
        let parent: Option<CandidateParentInfo> = match self.precollated_blocks.get(&slot) {
            Some(block) => block.parent,
            None => None,
        };
        self.remove_precollated_block(slot);
        self.publish_then_next(inputs, slot, parent, result, Some(slot))
    }

    fn head_past(&self, inputs: &CollationInputs, slot: SlotIndex) -> (r: Option<LocalChainHead>)
        ensures
            r == self@.head_past(*inputs, slot),
    {
        match self.local_chain_head {
            Some(head) => if head.window == inputs.window && head.slot.0 >= slot.0 {
                Some(head)
            } else {
                None
            },
            None => None,
        }
    }

    fn complete(
        &mut self,
        inputs: &CollationInputs,
        slot: SlotIndex,
        request_id: u32,
        result: CollationResult,
    ) -> (r: Result<Completed, CollationBreach>)
        ensures
            (final(self)@, r) == old(self)@.completed(*inputs, slot, request_id, result),
    {
        let was_running: bool = self.is_running(request_id);
        self.clear_block_generation_if(request_id);
        if inputs.desc.get_window_idx(slot) != inputs.window {
            self.act(CollationAction::Forget(slot, ForgetReason::StaleWindowResult));
            self.remove_precollated_block(slot);
            return Ok(Completed::Done);
        }
        if was_running {
            match self.head_past(inputs, slot) {
                Some(head) => {
                    if head.slot.0 == u32::MAX {
                        return Err(CollationBreach::SlotOverflow);
                    }
                    self.remove_precollated_block(slot);
                    return self.publish_then_next(
                        inputs,
                        SlotIndex(head.slot.0 + 1),
                        Some(head.parent_info),
                        result,
                        Some(slot),
                    );
                },
                None => {},
            }
        }
        if slot.0 > inputs.first_non_progressed.0 {
            match self.precollated_blocks.get(&slot) {
                None => {
                    self.act(CollationAction::Forget(slot, ForgetReason::MissingEntry));
                    return Ok(Completed::Done);
                },
                Some(block) => if block.result.is_some() {
                    return Ok(Completed::Done);
                },
            }
        }
        self.generated_block(inputs, slot, result)
    }

    fn finish_empty_collation_attempt(
        &mut self,
        inputs: &CollationInputs,
        slot: SlotIndex,
        parent: Option<CandidateParentInfo>,
        parent_block_id: BlockIdExt,
    ) -> (r: Step)
        requires
            old(self)@.active is None,
            parent is Some,
        ensures
            (final(self)@, r) == old(self)@.empty_attempt(*inputs, slot, parent, parent_block_id),
    {
        if self.precollated_blocks_next_request_id == u32::MAX {
            return Err(CollationBreach::RequestIdOverflow);
        }
        let request_id: u32 = self.create_pending_collation_request(slot, parent);
        let done = self.complete(
            inputs,
            slot,
            request_id,
            CollationResult::Empty { parent_block_id },
        );
        match done {
            Err(b) => Err(b),
            Ok(Completed::Publish(request)) => {
                self.update_collation_pacing(inputs);
                Ok(Some(request))
            },
            Ok(Completed::Then(_)) => {
                // The candidate has a parent and lies in the current window.
                assert(false);
                Ok(None)
            },
            Ok(Completed::Done) => {
                self.update_collation_pacing(inputs);
                Ok(None)
            },
        }
    }

    fn dispatch_collation_request(
        &mut self,
        inputs: &CollationInputs,
        slot: SlotIndex,
        parent: Option<CandidateParentInfo>,
        prepared: &PreparedCollation,
        pinned: Option<CollationDeadlineContext>,
    ) -> (r: Step)
        ensures
            (final(self)@, r) == old(self)@.dispatched(*inputs, slot, parent, *prepared, pinned),
    {
        if self.precollated_blocks_next_request_id == u32::MAX {
            return Err(CollationBreach::RequestIdOverflow);
        }
        let (count, _): (usize, u32) = inputs.survey_prev_blocks(&prepared.prev_blocks);
        if count == 0 || count > 2 {
            return Err(CollationBreach::PreviousBlocks);
        }
        let timing: CollationTiming = prepared.timing;
        let deadlines: CollationDeadlineContext = match pinned {
            Some(d) => d,
            None => {
                let (soft_deadline, hard_deadline): (TimePoint, TimePoint) = collation_deadlines(
                    slot,
                    timing.min_gen_time,
                    inputs.opts.target_rate,
                    inputs.desc.get_slots_per_leader_window(),
                    inputs.desc.get_shard().is_masterchain(),
                );
                CollationDeadlineContext {
                    soft_deadline,
                    hard_deadline,
                    budget_anchor: timing.dispatch_time,
                }
            },
        };
        let request_id: u32 = self.create_pending_collation_request(slot, parent);
        let next_slot_deadline: TimePoint = timing.min_gen_time.add_or_same(
            inputs.opts.target_rate,
        );
        self.block_generation_active = Some(
            RealCollationState {
                window: inputs.desc.get_window_idx(slot),
                slot_dispatched: slot,
                request_id,
                next_slot_deadline,
                deadlines,
            },
        );
        self.act(CollationAction::SlotWake(slot, request_id, next_slot_deadline));
        self.update_collation_pacing(inputs);
        self.act(
            CollationAction::Generate(
                GenerateRequest {
                    slot,
                    request_id,
                    source: BlockSourceInfo::roundless(inputs.desc.get_self_idx()),
                    parent,
                    prev_blocks: prepared.prev_blocks,
                    new_seqno: prepared.new_seqno,
                    min_gen_time: timing.min_gen_time,
                    deadlines,
                },
            ),
        );
        Ok(None)
    }

    fn unclaim(&mut self, slot: SlotIndex, clear: bool)
        ensures
            final(self)@ == old(self)@.unclaimed(slot, clear),
    {
        if clear {
            self.act(CollationAction::SetPending(slot, false));
        }
    }

    fn execute_collation_attempt(
        &mut self,
        inputs: &CollationInputs,
        slot: SlotIndex,
        parent: Option<CandidateParentInfo>,
        first_attempt: bool,
        pinned: Option<CollationDeadlineContext>,
    ) -> (r: Step)
        ensures
            (final(self)@, r) == old(self)@.attempted(*inputs, slot, parent, first_attempt, pinned),
    {
        if self.block_generation_active.is_some() {
            self.unclaim(slot, first_attempt);
            return Ok(None);
        }
        let prepared: PreparedCollation = match self.prepare_collation(&parent, inputs) {
            Err(b) => {
                return Err(b);
            },
            Ok(CollationPreparation::Deferred(at)) => {
                self.unclaim(slot, first_attempt);
                self.act(CollationAction::WakeAt(at));
                return Ok(None);
            },
            Ok(CollationPreparation::WaitingForParent) => {
                self.unclaim(slot, first_attempt);
                return Ok(None);
            },
            Ok(CollationPreparation::Ready(prepared)) => prepared,
        };
        let splits: Option<bool> = self.resolve_parent_before_split_flag(
            inputs,
            &prepared.prev_blocks,
        );
        if inputs.should_generate_empty_block(prepared.new_seqno, splits) {
            return match prepared.prev_blocks {
                PrevBlocks::Parent(block) => self.finish_empty_collation_attempt(
                    inputs,
                    slot,
                    parent,
                    block,
                ),
                PrevBlocks::SessionStart => Err(CollationBreach::EmptyFirstBlock),
            };
        }
        if first_attempt && slot.0 < inputs.first_non_progressed.0 {
            return Err(CollationBreach::ProgressedSlot);
        }
        self.dispatch_collation_request(inputs, slot, parent, &prepared, pinned)
    }

    fn invoke_collation(
        &mut self,
        inputs: &CollationInputs,
        slot: SlotIndex,
        parent: Option<CandidateParentInfo>,
    ) -> (r: Step)
        ensures
            (final(self)@, r) == old(self)@.invoked(*inputs, slot, parent),
    {
        if self.try_begin_collation_slot(inputs, slot).is_none() {
            return Ok(None);
        }
        match self.last_generated_slot {
            Some(last) => if slot.0 < last.0 {
                return Err(CollationBreach::SlotsOutOfOrder);
            },
            None => {},
        }
        self.last_generated_slot = Some(slot);
        self.execute_collation_attempt(inputs, slot, parent, true, None)
    }

    fn restart_collation(
        &mut self,
        inputs: &CollationInputs,
        slot: SlotIndex,
        pinned: Option<CollationDeadlineContext>,
    ) -> (r: Step)
        ensures
            (final(self)@, r) == old(self)@.restarted(*inputs, slot, pinned),
    {
        if self.try_begin_collation_slot(inputs, slot).is_none() {
            return Ok(None);
        }
        let parent: Option<CandidateParentInfo> = inputs.get_available_parent(slot);
        self.execute_collation_attempt(inputs, slot, parent, false, pinned)
    }

    fn result_ready(&self, slot: SlotIndex) -> (r: bool)
        ensures
            r == self@.has_result(slot),
    {
        match self.precollated_blocks.get(&slot) {
            Some(block) => block.result.is_some(),
            None => false,
        }
    }

    fn head_before(&self, inputs: &CollationInputs, slot: SlotIndex) -> (r: Option<
        CandidateParentInfo,
    >)
        ensures
            r == self@.head_before(*inputs, slot),
    {
        match self.local_chain_head {
            Some(head) => if head.window == inputs.desc.get_window_idx(slot) && head.slot.0
                < slot.0 && head.slot.0 + 1 == slot.0 {
                Some(head.parent_info)
            } else {
                None
            },
            None => None,
        }
    }

    /// Collates for a slot of the window ahead of time.
    pub fn precollate_block(&mut self, inputs: &CollationInputs, slot: SlotIndex) -> (r: Step)
        ensures
            (final(self)@, r) == old(self)@.precollated_next(*inputs, slot),
    {
        let max_precollated: u32 = inputs.desc.get_slots_per_leader_window() - 1;
        if self.precollated_count() >= max_precollated as usize {
            return Ok(None);
        }
        let mut target: SlotIndex = slot;
        if self.precollated_contains(slot) {
            match self.precollated_blocks_max_slot {
                Some(max) => if self.result_ready(max) {
                    if max.0 == u32::MAX {
                        return Err(CollationBreach::SlotOverflow);
                    }
                    target = SlotIndex(max.0 + 1);
                },
                None => {},
            }
        }
        if inputs.desc.get_window_idx(target) != inputs.window {
            return Ok(None);
        }
        if inputs.desc.get_leader(target) != inputs.desc.get_self_idx() {
            return Ok(None);
        }
        let mut parent: Option<CandidateParentInfo> = self.head_before(inputs, target);
        if parent.is_none() {
            if !inputs.available.contains_key(&target) {
                return Ok(None);
            }
            parent = inputs.get_available_parent(target);
        }
        match &parent {
            Some(p) => if self.resolve_parent_block_id(p, inputs).is_none() {
                return Ok(None);
            },
            None => {},
        }
        self.invoke_collation(inputs, target, parent)
    }

    fn go_on(
        &mut self,
        inputs: &CollationInputs,
        done: Result<Completed, CollationBreach>,
    ) -> (r: Step)
        ensures
            (final(self)@, r) == old(self)@.continued(*inputs, done),
    {
        match done {
            Err(b) => Err(b),
            Ok(Completed::Publish(request)) => Ok(Some(request)),
            Ok(Completed::Then(slot)) => self.precollate_block(inputs, slot),
            Ok(Completed::Done) => Ok(None),
        }
    }

    fn refill(&mut self, inputs: &CollationInputs) -> (r: Step)
        ensures
            (final(self)@, r) == old(self)@.refilled(*inputs),
    {
        match self.local_chain_head {
            None => Ok(None),
            Some(head) => {
                if head.slot.0 == u32::MAX {
                    return Err(CollationBreach::SlotOverflow);
                }
                let next: SlotIndex = SlotIndex(head.slot.0 + 1);
                if head.window == inputs.window && !inputs.generated.contains_key(&next)
                    && !inputs.pending.contains_key(&next) && !self.precollated_contains(next) {
                    self.precollate_block(inputs, next)
                } else {
                    Ok(None)
                }
            },
        }
    }

    fn start(
        &mut self,
        inputs: &CollationInputs,
        slot: SlotIndex,
        parent: Option<CandidateParentInfo>,
    ) -> (r: Step)
        ensures
            (final(self)@, r) == old(self)@.started(*inputs, slot, parent),
    {
        let ghost s = self@;
        if !self.result_ready(slot) {
            return self.invoke_collation(inputs, slot, parent);
        }
        match self.precollated_blocks.remove(&slot) {
            Some(block) => {
                let locked: Option<CandidateParentInfo> = block.parent;
                match block.result {
                    Some(result) => {
                        assert(self@ == s.without(slot));
                        let done = self.publish_then_next(
                            inputs,
                            slot,
                            locked,
                            result,
                            Some(slot),
                        );
                        match done {
                            Err(b) => Err(b),
                            Ok(c) => {
                                self.update_collation_pacing(inputs);
                                self.go_on(inputs, Ok(c))
                            },
                        }
                    },
                    None => Ok(None),
                }
            },
            None => Ok(None),
        }
    }

    /// Looks whether to make a block for the current slot.
    pub fn check_collation(&mut self, inputs: &CollationInputs) -> (r: Step)
        ensures
            (final(self)@, r) == old(self)@.checked(*inputs),
    {
        self.refresh_finalization_timestamp(inputs);
        self.clear_stale_block_generation(inputs);
        match self.earliest_collation_time {
            Some(earliest) => if inputs.now.nanos < earliest.nanos {
                self.act(CollationAction::WakeAt(earliest));
                return Ok(None);
            },
            None => {},
        }
        let slot: SlotIndex = inputs.first_non_progressed;
        if inputs.desc.get_window_idx(slot).0 < inputs.window.0 {
            return Ok(None);
        }
        if self.has_stale_precollations(inputs) {
            self.reset();
        }
        if inputs.generated.contains_key(&slot) || inputs.pending.contains_key(&slot) {
            return self.refill(inputs);
        }
        if inputs.desc.get_leader(slot) != inputs.desc.get_self_idx() {
            return Ok(None);
        }
        if !inputs.available.contains_key(&slot) {
            return Ok(None);
        }
        let parent: Option<CandidateParentInfo> = inputs.get_available_parent(slot);
        match &parent {
            Some(p) => if self.resolve_parent_block_id(p, inputs).is_none() {
                self.act(CollationAction::RequestParent(p.to_id()));
                return Ok(None);
            },
            None => {},
        }
        self.act(CollationAction::SetPending(slot, true));
        self.start(inputs, slot, parent)
    }

    /// Takes in the result of a collation.
    pub fn on_collation_complete(
        &mut self,
        inputs: &CollationInputs,
        slot: SlotIndex,
        request_id: u32,
        result: CollationResult,
    ) -> (r: Step)
        ensures
            ({
                let (s, done) = old(self)@.completed(*inputs, slot, request_id, result);
                (final(self)@, r) == s.continued(*inputs, done)
            }),
    {
        let done = self.complete(inputs, slot, request_id, result);
        self.go_on(inputs, done)
    }

    /// What an empty candidate in `loop_slot` would follow.
    fn emit_slot_filler(
        &self,
        inputs: &CollationInputs,
        loop_slot: SlotIndex,
        slot_dispatched: SlotIndex,
    ) -> (r: Option<(CandidateParentInfo, BlockIdExt)>)
        ensures
            r == self@.filler(*inputs, loop_slot, slot_dispatched),
    {
        let parent: Option<CandidateParentInfo> = match self.head_before(inputs, loop_slot) {
            Some(p) => Some(p),
            None => if loop_slot == slot_dispatched {
                match self.precollated_blocks.get(&slot_dispatched) {
                    Some(block) => block.parent,
                    None => None,
                }
            } else {
                None
            },
        };
        match parent {
            Some(p) => match self.resolve_parent_block_id(&p, inputs) {
                Some(block) => Some((p, block)),
                None => None,
            },
            None => None,
        }
    }

    /// Takes in that `loop_slot` ended while the collation `request_id` runs.
    pub fn on_slot_deadline(
        &mut self,
        inputs: &CollationInputs,
        loop_slot: SlotIndex,
        request_id: u32,
        deadline: TimePoint,
    ) -> (r: Step)
        ensures
            (final(self)@, r) == old(self)@.slot_ended(*inputs, loop_slot, request_id, deadline),
    {
        let active: RealCollationState = match self.block_generation_active {
            Some(active) => if active.request_id == request_id {
                active
            } else {
                return Ok(None);
            },
            None => {
                return Ok(None);
            },
        };
        if active.window != inputs.window {
            self.clear_stale_block_generation(inputs);
            return Ok(None);
        }
        if inputs.desc.get_window_idx(loop_slot) != inputs.window {
            return Ok(None);
        }
        self.refresh_finalization_timestamp(inputs);
        let filler: Option<(CandidateParentInfo, BlockIdExt)> = if
            self.empties_allowed_by_finalization(inputs) {
            self.emit_slot_filler(inputs, loop_slot, active.slot_dispatched)
        } else {
            None
        };
        let mut next_deadline: TimePoint = deadline.add_or_same(inputs.opts.target_rate);
        if next_deadline.nanos <= inputs.now.nanos {
            next_deadline = inputs.get_next_block_time();
        }
        let moved: RealCollationState = RealCollationState {
            window: active.window,
            slot_dispatched: active.slot_dispatched,
            request_id: active.request_id,
            next_slot_deadline: next_deadline,
            deadlines: active.deadlines,
        };
        match filler {
            None => {
                self.block_generation_active = Some(moved);
                self.act(CollationAction::SlotWake(loop_slot, request_id, next_deadline));
                Ok(None)
            },
            Some((parent, block)) => {
                if loop_slot.0 == u32::MAX {
                    return Err(CollationBreach::SlotOverflow);
                }
                self.block_generation_active = Some(moved);
                self.act(
                    CollationAction::SlotWake(
                        SlotIndex(loop_slot.0 + 1),
                        request_id,
                        next_deadline,
                    ),
                );
                let request = self.publish_candidate(
                    inputs,
                    loop_slot,
                    Some(parent),
                    CollationResult::Empty { parent_block_id: block },
                    None,
                    None,
                );
                Ok(request)
            },
        }
    }

    /// Takes in that a collation failed.
    pub fn on_collation_failed_impl(
        &mut self,
        inputs: &CollationInputs,
        slot: SlotIndex,
        request_id: u32,
    ) -> (r: Step)
        ensures
            (final(self)@, r) == old(self)@.failed(*inputs, slot, request_id),
    {
        let pinned: Option<CollationDeadlineContext> = match self.block_generation_active {
            Some(active) => if active.request_id == request_id {
                Some(active.deadlines)
            } else {
                None
            },
            None => None,
        };
        self.clear_block_generation_if(request_id);
        let locked: Option<CandidateParentInfo> = match self.precollated_blocks.get(&slot) {
            Some(block) => block.parent,
            None => None,
        };
        self.remove_precollated_block(slot);
        if slot.0 < inputs.first_non_progressed.0 {
            return Ok(None);
        }
        if inputs.desc.get_window_idx(slot) != inputs.window {
            return Ok(None);
        }
        self.refresh_finalization_timestamp(inputs);
        if self.empties_allowed_by_finalization(inputs) {
            let past: Option<LocalChainHead> = self.head_past(inputs, slot);
            let parent: Option<CandidateParentInfo> = match past {
                Some(head) => Some(head.parent_info),
                None => locked,
            };
            match parent {
                Some(p) => match self.resolve_parent_block_id(&p, inputs) {
                    Some(block) => {
                        let place: SlotIndex = match past {
                            Some(head) => {
                                if head.slot.0 == u32::MAX {
                                    return Err(CollationBreach::SlotOverflow);
                                }
                                SlotIndex(head.slot.0 + 1)
                            },
                            None => slot,
                        };
                        let done = self.publish_then_next(
                            inputs,
                            place,
                            Some(p),
                            CollationResult::Empty { parent_block_id: block },
                            None,
                        );
                        return self.go_on(inputs, done);
                    },
                    None => {},
                },
                None => {},
            }
        }
        let at: TimePoint = inputs.now.add_or_same(
            TimeSpan { nanos: COLLATION_ERROR_RESTART_BACKOFF },
        );
        self.act(CollationAction::Restart(slot, pinned, at));
        Ok(None)
    }

    /// Takes in that the time for a restart came.
    pub fn on_restart_due(
        &mut self,
        inputs: &CollationInputs,
        slot: SlotIndex,
        pinned: Option<CollationDeadlineContext>,
    ) -> (r: Step)
        ensures
            (final(self)@, r) == old(self)@.restart_due(*inputs, slot, pinned),
    {
        if slot.0 < inputs.first_non_progressed.0 {
            return Ok(None);
        }
        if self.block_generation_active.is_some() {
            return Ok(None);
        }
        match self.precollated_blocks_max_slot {
            Some(max) => if max != slot {
                return Ok(None);
            },
            None => {},
        }
        if self.result_ready(slot) {
            return Ok(None);
        }
        self.restart_collation(inputs, slot, pinned)
    }

    /// Takes in the answer of the collator to a request that may have been
    /// cancelled meanwhile.
    pub fn on_collation_callback(
        &mut self,
        inputs: &CollationInputs,
        slot: SlotIndex,
        request_id: u32,
        cancelled: bool,
        answer: Option<CollatedBlock>,
    ) -> (r: Step)
        ensures
            (final(self)@, r) == old(self)@.called_back(
                *inputs,
                slot,
                request_id,
                cancelled,
                answer,
            ),
            (final(self)@, r) == (if cancelled {
                (
                    old(self)@.act(CollationAction::Forget(slot, ForgetReason::Cancelled)),
                    Ok::<Option<PublishRequest>, CollationBreach>(None),
                )
            } else {
                match answer {
                    Some(block) => {
                        let (s, done) = old(self)@.completed(
                            *inputs,
                            slot,
                            request_id,
                            CollationResult::Block(block),
                        );
                        s.continued(*inputs, done)
                    },
                    None => old(self)@.failed(*inputs, slot, request_id),
                }
            }),
    {
        if cancelled {
            self.act(CollationAction::Forget(slot, ForgetReason::Cancelled));
            return Ok(None);
        }
        match answer {
            Some(block) => self.on_collation_complete(
                inputs,
                slot,
                request_id,
                CollationResult::Block(block),
            ),
            None => self.on_collation_failed_impl(inputs, slot, request_id),
        }
    }

    /// Takes in the candidate of `request`, or that it could not be built, and
    /// collates for the next slot if one is named.
    pub fn candidate_built(
        &mut self,
        inputs: &CollationInputs,
        request: &PublishRequest,
        desc: Option<&GeneratedBlockDesc>,
    ) -> (r: Step)
        ensures
            (final(self)@, r) == old(self)@.built(
                *inputs,
                *request,
                match desc {
                    Some(d) => Some(*d),
                    None => None,
                },
            ),
    {
        match desc {
            Some(d) => {
                let slot: SlotIndex = request.slot;
                let id: RawCandidateId = RawCandidateId { slot, hash: d.candidate_hash };
                let is_empty: bool = matches!(request.result, CollationResult::Empty { .. });
                if d.is_info_known(&request.parent, is_empty) {
                    self.act(CollationAction::Persist(id));
                }
                self.generated_parent_cache.insert(id, d.block_id_ext);
                match d.gen_utime_ms {
                    Some(ms) => {
                        self.generated_parent_gen_utime_ms_cache.insert(id, ms);
                    },
                    None => {},
                }
                self.local_chain_head = Some(
                    LocalChainHead {
                        window: inputs.desc.get_window_idx(slot),
                        slot,
                        parent_info: CandidateParentInfo { slot, hash: d.candidate_hash },
                        gen_utime_ms: d.gen_utime_ms,
                    },
                );
                self.act(CollationAction::Broadcast(id));
                self.act(CollationAction::SelfReceive(id));
                self.act(CollationAction::SetPending(slot, false));
                self.act(CollationAction::SetGenerated(slot));
                self.act(CollationAction::SetSent(slot));
            },
            None => {},
        }
        match request.next {
            Some(next) => self.precollate_block(inputs, next),
            None => Ok(None),
        }
    }

    /// How long a generation took, and whether that is slow.
    pub fn generation_time(started_at: TimePoint, now: TimePoint) -> (r: (TimeSpan, bool))
        ensures
            r.0 == (match now.since(started_at) {
                Some(span) => span,
                None => TimeSpan { nanos: 0 },
            }),
            r.1 == (r.0.nanos > MAX_GENERATION_TIME),
    {
        let span: TimeSpan = match now.duration_since(started_at) {
            Some(span) => span,
            None => TimeSpan::zero(),
        };
        (span, span.nanos > MAX_GENERATION_TIME)
    }
}

} // verus!
