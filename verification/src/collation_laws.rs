//! What every step of the collation pipeline keeps.

use vstd::prelude::*;

use crate::block::{roundless_source, CandidateParentInfo, RawCandidateId, SlotIndex};
use crate::block_desc::GeneratedBlockDesc;
use crate::chain::BlockIdExt;
use crate::collation::{
    CollationAction, CollationBreach, CollationDeadlineContext, CollationInputs,
    CollationPreparation, CollationResult, ForgetReason, PreparedCollation, PublishRequest,
    COLLATION_ERROR_RESTART_BACKOFF,
};
use crate::collation_controller::{
    ascending, cancels, forgets, CollationView, Completed, Step,
};
use crate::time::{TimePoint, TimeSpan, TIME_POINT_MIN, TIME_SPAN_MAX};

verus! {

/// An event that the pipeline takes in.
#[allow(inconsistent_fields)]
pub enum CollationEvent {
    /// It is time to look whether to make a block.
    Check,
    /// A slot is to be collated for ahead of time.
    Precollate { slot: SlotIndex },
    /// A collation gave a result.
    Complete { slot: SlotIndex, request_id: u32, result: CollationResult },
    /// A collation failed.
    Fail { slot: SlotIndex, request_id: u32 },
    /// A slot ended while its collation runs.
    SlotEnd { slot: SlotIndex, request_id: u32, deadline: TimePoint },
    /// The time for a restart came.
    RestartDue { slot: SlotIndex, pinned: Option<CollationDeadlineContext> },
    /// A candidate was built, or could not be.
    Built { request: PublishRequest, desc: Option<GeneratedBlockDesc> },
}

/// The pipeline after an event, and what is left to be published.
pub open spec fn step(s: CollationView, inp: CollationInputs, event: CollationEvent) -> (
    CollationView,
    Step,
) {
    match event {
        CollationEvent::Check => s.checked(inp),
        CollationEvent::Precollate { slot } => s.precollated_next(inp, slot),
        CollationEvent::Complete { slot, request_id, result } => {
            let (t, done) = s.completed(inp, slot, request_id, result);
            t.continued(inp, done)
        },
        CollationEvent::Fail { slot, request_id } => s.failed(inp, slot, request_id),
        CollationEvent::SlotEnd { slot, request_id, deadline } => s.slot_ended(
            inp,
            slot,
            request_id,
            deadline,
        ),
        CollationEvent::RestartDue { slot, pinned } => s.restart_due(inp, slot, pinned),
        CollationEvent::Built { request, desc } => s.built(inp, request, desc),
    }
}

/// The state that the pipeline keeps: requests have numbers of their own, below
/// the next one, and no collation stands past the highest slot.
pub open spec fn in_order(s: CollationView) -> bool {
    &&& forall|slot: SlotIndex| #[trigger]
        s.precollated.dom().contains(slot) ==> {
            &&& s.precollated[slot].request_id < s.next_request_id
            &&& s.max_slot is Some
            &&& slot.0 <= s.max_slot->Some_0.0
        }
    &&& forall|a: SlotIndex, b: SlotIndex|
        #![trigger s.precollated[a], s.precollated[b]]
        s.precollated.dom().contains(a) && s.precollated.dom().contains(b) && a != b
            ==> s.precollated[a].request_id != s.precollated[b].request_id
    &&& s.active matches Some(active) ==> active.request_id < s.next_request_id
}

/// Whether the step from `s` to `t` is sound: actions are only added; a block is
/// asked for at most once, under a number that was not used before, in no round,
/// in a slot that the local validator leads, and then its collation is the one
/// that runs; what is published lies in the current window and is not empty without a
/// parent; and the pipeline stays in order.
pub open spec fn sound_step(inp: CollationInputs, s: CollationView, t: CollationView, r: Step) -> bool {
    &&& s.actions.is_prefix_of(t.actions)
    &&& s.next_request_id <= t.next_request_id
    &&& in_order(s) ==> in_order(t)
    &&& forall|i: int|
        s.actions.len() <= i < t.actions.len() ==> match #[trigger] t.actions[i] {
            CollationAction::Generate(g) => {
                &&& inp.leads(g.slot)
                &&& g.source == roundless_source(inp.desc.local())
                &&& g.request_id == s.next_request_id
                &&& g.request_id < t.next_request_id
                &&& t.active is Some
                &&& t.active->Some_0.request_id == g.request_id
                &&& t.active->Some_0.slot_dispatched == g.slot
                &&& t.active->Some_0.deadlines == g.deadlines
            },
            _ => true,
        }
    &&& forall|i: int, j: int|
        s.actions.len() <= i < j < t.actions.len() ==> !(#[trigger] t.actions[i] is Generate
            && #[trigger] t.actions[j] is Generate)
    &&& r matches Ok(Some(q)) ==> inp.in_window(q.slot) && (q.result is Empty ==> q.parent is Some)
}

/// Whether going from `s` to `t` asks for no block.
spec fn quiet(s: CollationView, t: CollationView) -> bool {
    &&& s.actions.is_prefix_of(t.actions)
    &&& s.next_request_id == t.next_request_id
    &&& in_order(s) ==> in_order(t)
    &&& forall|i: int|
        s.actions.len() <= i < t.actions.len() ==> !(#[trigger] t.actions[i] is Generate)
}

proof fn lemma_quiet_then_sound(
    inp: CollationInputs,
    s: CollationView,
    t: CollationView,
    u: CollationView,
    r: Step,
)
    requires
        quiet(s, t),
        sound_step(inp, t, u, r),
    ensures
        sound_step(inp, s, u, r),
{
    assert(s.actions.is_prefix_of(u.actions));
    assert forall|i: int| s.actions.len() <= i < t.actions.len() implies #[trigger] u.actions[i]
        == t.actions[i] by {}
}

proof fn lemma_quiet_trans(s: CollationView, t: CollationView, u: CollationView)
    requires
        quiet(s, t),
        quiet(t, u),
    ensures
        quiet(s, u),
{
    assert forall|i: int| s.actions.len() <= i < t.actions.len() implies #[trigger] u.actions[i]
        == t.actions[i] by {}
}

proof fn lemma_act_quiet(s: CollationView, a: CollationAction)
    requires
        !(a is Generate),
    ensures
        quiet(s, s.act(a)),
{
}

proof fn lemma_requested(s: CollationView, slot: SlotIndex, parent: Option<CandidateParentInfo>)
    requires
        s.next_request_id < u32::MAX,
    ensures
        in_order(s) ==> in_order(s.requested(slot, parent)),
{
}

proof fn lemma_offered(
    s: CollationView,
    inp: CollationInputs,
    slot: SlotIndex,
    parent: Option<CandidateParentInfo>,
    result: CollationResult,
    funnel_slot: Option<SlotIndex>,
)
    ensures
        ({
            let (t, done) = s.offered_then_next(inp, slot, parent, result, funnel_slot);
            &&& quiet(s, t)
            &&& done matches Ok(Completed::Publish(q)) ==> {
                &&& inp.in_window(q.slot)
                &&& q.result is Empty ==> q.parent is Some
                &&& q.slot == slot
            }
        }),
{
}

proof fn lemma_completed(
    s: CollationView,
    inp: CollationInputs,
    slot: SlotIndex,
    request_id: u32,
    result: CollationResult,
)
    ensures
        ({
            let (t, done) = s.completed(inp, slot, request_id, result);
            &&& quiet(s, t)
            &&& done matches Ok(Completed::Publish(q)) ==> inp.in_window(q.slot) && (q.result
                is Empty ==> q.parent is Some)
        }),
{
    let u = s.released(request_id);
    assert(quiet(s, u));
    assert(quiet(u, u.without(slot)));
    lemma_quiet_trans(s, u, u.without(slot));
    let stale = u.act(
        CollationAction::Forget(slot, crate::collation::ForgetReason::StaleWindowResult),
    );
    assert(quiet(s, stale.without(slot)));
    match s.head {
        Some(head) => {
            let retag = SlotIndex((head.slot.0 + 1) as u32);
            lemma_offered(
                u.without(slot),
                inp,
                retag,
                Some(head.parent_info),
                result,
                Some(slot),
            );
            lemma_quiet_trans(
                s,
                u.without(slot),
                u.without(slot).offered_then_next(
                    inp,
                    retag,
                    Some(head.parent_info),
                    result,
                    Some(slot),
                ).0,
            );
        },
        None => {},
    }
    lemma_offered(u.without(slot), inp, slot, u.locked_parent(slot), result, Some(slot));
    lemma_quiet_trans(
        s,
        u.without(slot),
        u.without(slot).offered_then_next(
            inp,
            slot,
            u.locked_parent(slot),
            result,
            Some(slot),
        ).0,
    );
}

proof fn lemma_empty_attempt(
    s: CollationView,
    inp: CollationInputs,
    slot: SlotIndex,
    parent: Option<CandidateParentInfo>,
    block: BlockIdExt,
)
    ensures
        ({
            let (t, r) = s.empty_attempt(inp, slot, parent, block);
            sound_step(inp, s, t, r)
        }),
{
    if s.next_request_id < u32::MAX {
        let u = s.requested(slot, parent);
        lemma_requested(s, slot, parent);
        lemma_completed(
            u,
            inp,
            slot,
            s.next_request_id,
            CollationResult::Empty { parent_block_id: block },
        );
    }
}

proof fn lemma_dispatched(
    s: CollationView,
    inp: CollationInputs,
    slot: SlotIndex,
    parent: Option<CandidateParentInfo>,
    prepared: PreparedCollation,
    pinned: Option<CollationDeadlineContext>,
)
    requires
        inp.leads(slot),
    ensures
        ({
            let (t, r) = s.dispatched(inp, slot, parent, prepared, pinned);
            sound_step(inp, s, t, r)
        }),
{
    if s.next_request_id < u32::MAX {
        lemma_requested(s, slot, parent);
    }
}

proof fn lemma_attempted(
    s: CollationView,
    inp: CollationInputs,
    slot: SlotIndex,
    parent: Option<CandidateParentInfo>,
    first_attempt: bool,
    pinned: Option<CollationDeadlineContext>,
)
    requires
        inp.leads(slot),
    ensures
        ({
            let (t, r) = s.attempted(inp, slot, parent, first_attempt, pinned);
            sound_step(inp, s, t, r)
        }),
{
    match s.preparation(inp, parent) {
        Ok(CollationPreparation::Ready(prepared)) => {
            lemma_dispatched(s, inp, slot, parent, prepared, pinned);
            match prepared.prev_blocks {
                crate::collation::PrevBlocks::Parent(block) => {
                    lemma_empty_attempt(s, inp, slot, parent, block);
                },
                _ => {},
            }
        },
        _ => {},
    }
}

proof fn lemma_invoked(
    s: CollationView,
    inp: CollationInputs,
    slot: SlotIndex,
    parent: Option<CandidateParentInfo>,
)
    ensures
        ({
            let (t, r) = s.invoked(inp, slot, parent);
            sound_step(inp, s, t, r)
        }),
{
    let u = CollationView { last_generated: Some(slot), ..s };
    if s.may_begin(inp, slot) {
        lemma_attempted(u, inp, slot, parent, true, None);
        let (t, r) = u.attempted(inp, slot, parent, true, None);
        assert(quiet(s, u));
        lemma_quiet_then_sound(inp, s, u, t, r);
    }
}

proof fn lemma_precollated(s: CollationView, inp: CollationInputs, slot: SlotIndex)
    ensures
        ({
            let (t, r) = s.precollated_next(inp, slot);
            sound_step(inp, s, t, r)
        }),
{
    match s.precollation_target(slot) {
        Ok(target) => {
            let head = s.head_before(inp, target);
            let parent = if head is Some {
                head
            } else {
                inp.available_parent(target)
            };
            lemma_invoked(s, inp, target, parent);
        },
        Err(_) => {},
    }
}

proof fn lemma_continued(
    s: CollationView,
    t: CollationView,
    inp: CollationInputs,
    done: Result<Completed, CollationBreach>,
)
    requires
        quiet(s, t),
        done matches Ok(Completed::Publish(q)) ==> inp.in_window(q.slot) && (q.result is Empty
            ==> q.parent is Some),
    ensures
        ({
            let (u, r) = t.continued(inp, done);
            sound_step(inp, s, u, r)
        }),
{
    match done {
        Ok(Completed::Then(slot)) => {
            lemma_precollated(t, inp, slot);
            let (u, r) = t.precollated_next(inp, slot);
            lemma_quiet_then_sound(inp, s, t, u, r);
        },
        _ => {},
    }
}

proof fn lemma_unstuck(s: CollationView, inp: CollationInputs)
    ensures
        quiet(s, s.unstuck(inp)),
        quiet(s, s.refreshed(inp)),
{
}

proof fn lemma_reset(s: CollationView)
    ensures
        quiet(s, s.reset()),
{
    let slots = ascending(s.precollated.dom());
    let t = s.reset();
    let c = cancels(s.precollated, slots);
    let f = forgets(slots);
    assert(t.actions == s.actions + c + f);
    assert forall|i: int| s.actions.len() <= i < t.actions.len() implies !(#[trigger] t.actions[i]
        is Generate) by {
        let n = s.actions.len();
        if i < n + c.len() {
            assert(t.actions[i] == c[i - n]);
        } else {
            assert(t.actions[i] == f[i - n - c.len()]);
        }
    }
}

proof fn lemma_started(
    s: CollationView,
    inp: CollationInputs,
    slot: SlotIndex,
    parent: Option<CandidateParentInfo>,
)
    ensures
        ({
            let (t, r) = s.started(inp, slot, parent);
            sound_step(inp, s, t, r)
        }),
{
    if s.has_result(slot) {
        let result = s.precollated[slot].result->Some_0;
        let (t, done) = s.generated(inp, slot, result);
        assert(quiet(s, s.without(slot)));
        lemma_offered(s.without(slot), inp, slot, s.locked_parent(slot), result, Some(slot));
        lemma_quiet_trans(s, s.without(slot), t);
        assert(quiet(s, t.paced(inp)));
        lemma_continued(s, t.paced(inp), inp, done);
    } else {
        lemma_invoked(s, inp, slot, parent);
    }
}

proof fn lemma_checked(s: CollationView, inp: CollationInputs)
    ensures
        ({
            let (t, r) = s.checked(inp);
            sound_step(inp, s, t, r)
        }),
{
    let a = s.refreshed(inp);
    let b = a.unstuck(inp);
    lemma_unstuck(s, inp);
    lemma_unstuck(a, inp);
    lemma_quiet_trans(s, a, b);
    let c = if b.is_stale(inp) {
        b.reset()
    } else {
        b
    };
    lemma_reset(b);
    if b.is_stale(inp) {
        lemma_quiet_trans(s, b, c);
    }
    let slot = inp.first_non_progressed;
    let parent = inp.available_parent(slot);
    match c.head {
        Some(head) => {
            if head.slot.0 < u32::MAX {
                let next = SlotIndex((head.slot.0 + 1) as u32);
                lemma_precollated(c, inp, next);
                let (t, r) = c.precollated_next(inp, next);
                lemma_quiet_then_sound(inp, s, c, t, r);
            }
        },
        None => {},
    }
    let d = c.act(CollationAction::SetPending(slot, true));
    lemma_act_quiet(c, CollationAction::SetPending(slot, true));
    lemma_quiet_trans(s, c, d);
    lemma_started(d, inp, slot, parent);
    let (t, r) = d.started(inp, slot, parent);
    lemma_quiet_then_sound(inp, s, d, t, r);
    if parent is Some {
        let fetch = CollationAction::RequestParent(parent->Some_0.id());
        lemma_act_quiet(c, fetch);
        lemma_quiet_trans(s, c, c.act(fetch));
    }
    if b.earliest is Some {
        let wake = CollationAction::WakeAt(b.earliest->Some_0);
        lemma_act_quiet(b, wake);
        lemma_quiet_trans(s, b, b.act(wake));
    }
}

proof fn lemma_failed(s: CollationView, inp: CollationInputs, slot: SlotIndex, request_id: u32)
    ensures
        ({
            let (t, r) = s.failed(inp, slot, request_id);
            sound_step(inp, s, t, r)
        }),
{
    let a = s.released(request_id).without(slot);
    assert(quiet(s, a));
    let b = a.refreshed(inp);
    lemma_unstuck(a, inp);
    lemma_quiet_trans(s, a, b);
    let (place, parent) = b.recovery(inp, slot, s.locked_parent(slot));
    match parent {
        Some(p) => {
            match b.resolve_parent(inp, p) {
                Some(block) => {
                    let at = SlotIndex(place as u32);
                    let result = CollationResult::Empty { parent_block_id: block };
                    lemma_offered(b, inp, at, parent, result, None);
                    let (u, done) = b.offered_then_next(inp, at, parent, result, None);
                    lemma_quiet_trans(s, b, u);
                    lemma_continued(s, u, inp, done);
                },
                None => {},
            }
        },
        None => {},
    }
    let pinned = if s.runs(request_id) {
        Some(s.active->Some_0.deadlines)
    } else {
        None
    };
    let restart = CollationAction::Restart(
        slot,
        pinned,
        inp.now.plus_or_same(TimeSpan { nanos: COLLATION_ERROR_RESTART_BACKOFF }),
    );
    lemma_act_quiet(b, restart);
    lemma_quiet_trans(s, b, b.act(restart));
}

proof fn lemma_published(
    s: CollationView,
    inp: CollationInputs,
    slot: SlotIndex,
    id: RawCandidateId,
    block_id: BlockIdExt,
    gen_utime_ms: Option<u64>,
    persisted: bool,
)
    ensures
        quiet(s, s.published(inp, slot, id, block_id, gen_utime_ms, persisted)),
{
}

/// A pipeline starts in order.
pub proof fn pipeline_starts_in_order(s: CollationView)
    requires
        s.precollated == Map::<SlotIndex, crate::collation::PrecollatedBlock>::empty(),
        s.active is None,
    ensures
        in_order(s),
{
}

/// Every step of the pipeline is sound.
pub proof fn steps_are_sound(s: CollationView, inp: CollationInputs, event: CollationEvent)
    ensures
        ({
            let (t, r) = step(s, inp, event);
            sound_step(inp, s, t, r)
        }),
{
    match event {
        CollationEvent::Check => {
            lemma_checked(s, inp);
        },
        CollationEvent::Precollate { slot } => {
            lemma_precollated(s, inp, slot);
        },
        CollationEvent::Complete { slot, request_id, result } => {
            lemma_completed(s, inp, slot, request_id, result);
            let (t, done) = s.completed(inp, slot, request_id, result);
            lemma_continued(s, t, inp, done);
        },
        CollationEvent::Fail { slot, request_id } => {
            lemma_failed(s, inp, slot, request_id);
        },
        CollationEvent::SlotEnd { slot, request_id, deadline } => {
            lemma_unstuck(s, inp);
        },
        CollationEvent::RestartDue { slot, pinned } => {
            if s.may_begin(inp, slot) {
                lemma_attempted(s, inp, slot, inp.available_parent(slot), false, pinned);
            }
        },
        CollationEvent::Built { request, desc } => {
            let t = match desc {
                Some(d) => {
                    let id = RawCandidateId { slot: request.slot, hash: d.candidate_hash };
                    let known = d.has_info(request.parent, request.result is Empty);
                    lemma_published(
                        s,
                        inp,
                        request.slot,
                        id,
                        d.block_id_ext,
                        d.gen_utime_ms,
                        known,
                    );
                    s.published(inp, request.slot, id, d.block_id_ext, d.gen_utime_ms, known)
                },
                None => s,
            };
            match request.next {
                Some(next) => {
                    lemma_precollated(t, inp, next);
                    let (u, r) = t.precollated_next(inp, next);
                    lemma_quiet_then_sound(inp, s, t, u, r);
                },
                None => {},
            }
        },
    }
}

/// Whether `event` ends the collation with this number.
pub open spec fn ends(event: CollationEvent, request_id: u32) -> bool {
    match event {
        CollationEvent::Complete { request_id: id, .. } => id == request_id,
        CollationEvent::Fail { request_id: id, .. } => id == request_id,
        _ => false,
    }
}

/// Whether the collation that runs in `s` goes on in `t`, and no other one was
/// asked for.
spec fn goes_on(s: CollationView, t: CollationView) -> bool {
    &&& t.active is Some
    &&& t.active->Some_0.request_id == s.active->Some_0.request_id
    &&& t.active->Some_0.deadlines == s.active->Some_0.deadlines
    &&& t.next_request_id == s.next_request_id
}

proof fn lemma_next_goes_on(s: CollationView, inp: CollationInputs, slot: SlotIndex)
    requires
        s.active is Some,
    ensures
        goes_on(s, s.precollated_next(inp, slot).0),
{
}

proof fn lemma_started_goes_on(
    s: CollationView,
    inp: CollationInputs,
    slot: SlotIndex,
    parent: Option<CandidateParentInfo>,
)
    requires
        s.active is Some,
    ensures
        goes_on(s, s.started(inp, slot, parent).0),
{
    if s.has_result(slot) {
        let (t, done) = s.generated(inp, slot, s.precollated[slot].result->Some_0);
        assert(goes_on(s, t));
        match done {
            Ok(Completed::Then(next)) => {
                lemma_next_goes_on(t.paced(inp), inp, next);
            },
            _ => {},
        }
    }
}

proof fn lemma_check_goes_on(s: CollationView, inp: CollationInputs)
    requires
        s.active is Some,
        !s.is_stuck(inp),
        !s.is_stale(inp),
    ensures
        goes_on(s, s.checked(inp).0),
{
    let t = s.refreshed(inp);
    let slot = inp.first_non_progressed;
    match t.head {
        Some(head) => if head.slot.0 < u32::MAX {
            lemma_next_goes_on(t, inp, SlotIndex((head.slot.0 + 1) as u32));
        },
        None => {},
    }
    lemma_started_goes_on(
        t.act(CollationAction::SetPending(slot, true)),
        inp,
        slot,
        inp.available_parent(slot),
    );
}

proof fn lemma_complete_goes_on(
    s: CollationView,
    inp: CollationInputs,
    slot: SlotIndex,
    request_id: u32,
    result: CollationResult,
)
    requires
        s.active is Some,
        !s.runs(request_id),
    ensures
        ({
            let (t, done) = s.completed(inp, slot, request_id, result);
            goes_on(s, t.continued(inp, done).0)
        }),
{
    let (t, done) = s.completed(inp, slot, request_id, result);
    assert(goes_on(s, t));
    match done {
        Ok(Completed::Then(next)) => {
            lemma_next_goes_on(t, inp, next);
        },
        _ => {},
    }
}

proof fn lemma_fail_goes_on(s: CollationView, inp: CollationInputs, slot: SlotIndex, request_id: u32)
    requires
        s.active is Some,
        !s.runs(request_id),
    ensures
        goes_on(s, s.failed(inp, slot, request_id).0),
{
    let t = s.released(request_id).without(slot).refreshed(inp);
    let (place, parent) = t.recovery(inp, slot, s.locked_parent(slot));
    match parent {
        Some(p) => {
            match t.resolve_parent(inp, p) {
                Some(block) => {
                    let result = CollationResult::Empty { parent_block_id: block };
                    let (u, done) = t.offered_then_next(
                        inp,
                        SlotIndex(place as u32),
                        parent,
                        result,
                        None,
                    );
                    assert(goes_on(s, u));
                    match done {
                        Ok(Completed::Then(next)) => {
                            lemma_next_goes_on(u, inp, next);
                        },
                        _ => {},
                    }
                },
                None => {},
            }
        },
        None => {},
    }
}

proof fn lemma_built_goes_on(
    s: CollationView,
    inp: CollationInputs,
    request: PublishRequest,
    desc: Option<GeneratedBlockDesc>,
)
    requires
        s.active is Some,
    ensures
        goes_on(s, s.built(inp, request, desc).0),
{
    let t = match desc {
        Some(d) => s.published(
            inp,
            request.slot,
            RawCandidateId { slot: request.slot, hash: d.candidate_hash },
            d.block_id_ext,
            d.gen_utime_ms,
            d.has_info(request.parent, request.result is Empty),
        ),
        None => s,
    };
    match request.next {
        Some(next) => {
            lemma_next_goes_on(t, inp, next);
        },
        None => {},
    }
}

/// While a collation of the current window runs, no other one is asked for, and
/// it goes on running: until it gives a result or fails, or the pipeline is
/// reset because it holds something of another window.
pub proof fn one_collation_at_a_time(s: CollationView, inp: CollationInputs, event: CollationEvent)
    requires
        s.active is Some,
        !s.is_stuck(inp),
        event is Check ==> !s.is_stale(inp),
        !ends(event, s.active->Some_0.request_id),
    ensures
        ({
            let t = step(s, inp, event).0;
            &&& t.active is Some
            &&& t.active->Some_0.request_id == s.active->Some_0.request_id
            &&& t.active->Some_0.deadlines == s.active->Some_0.deadlines
            &&& t.next_request_id == s.next_request_id
        }),
{
    match event {
        CollationEvent::Check => {
            lemma_check_goes_on(s, inp);
        },
        CollationEvent::Precollate { slot } => {
            lemma_next_goes_on(s, inp, slot);
        },
        CollationEvent::Complete { slot, request_id, result } => {
            lemma_complete_goes_on(s, inp, slot, request_id, result);
        },
        CollationEvent::Fail { slot, request_id } => {
            lemma_fail_goes_on(s, inp, slot, request_id);
        },
        CollationEvent::SlotEnd { .. } => {},
        CollationEvent::RestartDue { .. } => {},
        CollationEvent::Built { request, desc } => {
            lemma_built_goes_on(s, inp, request, desc);
        },
    }
}

/// Whether the collation that runs in `t` ran in `s` or got a new number.
spec fn same_or_new(s: CollationView, t: CollationView) -> bool {
    t.active matches Some(active) ==> t.active == s.active || active.request_id
        >= s.next_request_id
}

proof fn lemma_invoked_active(
    s: CollationView,
    inp: CollationInputs,
    slot: SlotIndex,
    parent: Option<CandidateParentInfo>,
)
    ensures
        same_or_new(s, s.invoked(inp, slot, parent).0),
{
}

proof fn lemma_precollated_active(s: CollationView, inp: CollationInputs, slot: SlotIndex)
    ensures
        same_or_new(s, s.precollated_next(inp, slot).0),
{
    match s.precollation_target(slot) {
        Ok(target) => {
            let head = s.head_before(inp, target);
            let parent = if head is Some {
                head
            } else {
                inp.available_parent(target)
            };
            lemma_invoked_active(s, inp, target, parent);
        },
        Err(_) => {},
    }
}

/// A collation of a window that is over does not block the current one: looking
/// at collation, or the end of its slot, stops it.
pub proof fn past_windows_do_not_block(
    s: CollationView,
    inp: CollationInputs,
    slot: SlotIndex,
    deadline: TimePoint,
)
    requires
        in_order(s),
        s.is_stuck(inp),
    ensures
        ({
            let request_id = s.active->Some_0.request_id;
            &&& !s.checked(inp).0.runs(request_id)
            &&& s.slot_ended(inp, slot, request_id, deadline).0.active is None
        }),
{
    let a = s.refreshed(inp).unstuck(inp);
    assert(a.active is None);
    assert(a.next_request_id == s.next_request_id);
    let t = if a.is_stale(inp) {
        a.reset()
    } else {
        a
    };
    assert(t.active is None && t.next_request_id == s.next_request_id);
    match t.head {
        Some(head) => {
            if head.slot.0 < u32::MAX {
                lemma_precollated_active(t, inp, SlotIndex((head.slot.0 + 1) as u32));
            }
        },
        None => {},
    }
    let current = inp.first_non_progressed;
    let parent = inp.available_parent(current);
    let d = t.act(CollationAction::SetPending(current, true));
    lemma_invoked_active(d, inp, current, parent);
    if d.has_result(current) {
        let v = d.generated(inp, current, d.precollated[current].result->Some_0).0;
        if current.0 < u32::MAX {
            lemma_precollated_active(v.paced(inp), inp, SlotIndex((current.0 + 1) as u32));
        }
    }
}

/// The block of a collation that overran its slot goes behind the candidates
/// that filled its slots, and so does an empty candidate that takes its place:
/// no slot up to the head gets a second candidate.
pub proof fn late_blocks_go_behind_fillers(
    s: CollationView,
    inp: CollationInputs,
    slot: SlotIndex,
    request_id: u32,
    result: CollationResult,
)
    requires
        s.head is Some,
        s.head->Some_0.window == inp.window,
    ensures
        s.runs(request_id) ==> (s.completed(inp, slot, request_id, result).1 matches Ok(
            Completed::Publish(q),
        ) ==> {
            &&& q.slot.0 > s.head->Some_0.slot.0
            &&& s.head->Some_0.slot.0 >= slot.0 ==> q.slot.0 == s.head->Some_0.slot.0 + 1
                && q.parent == Some(s.head->Some_0.parent_info)
            &&& q.result == result
            &&& q.funnel_slot == Some(slot)
        }),
        ({
            let (place, parent) = s.recovery(inp, slot, s.locked_parent(slot));
            &&& place > s.head->Some_0.slot.0
            &&& s.head->Some_0.slot.0 >= slot.0 ==> parent == Some(s.head->Some_0.parent_info)
        }),
{
}

proof fn lemma_precollated_slot(s: CollationView, inp: CollationInputs, slot: SlotIndex)
    requires
        in_order(s),
    ensures
        s.precollated_next(inp, slot).1 matches Ok(Some(q)) ==> q.slot.0 >= slot.0,
{
    match s.precollation_target(slot) {
        Ok(target) => {
            let head = s.head_before(inp, target);
            let parent = if head is Some {
                head
            } else {
                inp.available_parent(target)
            };
            let u = CollationView { last_generated: Some(target), ..s };
            forced_empties_repeat_the_parent(u, inp, target, parent, true, None);
        },
        Err(_) => {},
    }
}

/// Whether `event` is one that the pipeline with this head in the current window
/// is to be handed: only the running collation gives results, slots end and
/// restarts are due past the head, a candidate is built past the head, and a
/// slot up to the head that is current is known to have a candidate.
pub open spec fn past_head(
    s: CollationView,
    inp: CollationInputs,
    event: CollationEvent,
    head: SlotIndex,
) -> bool {
    match event {
        CollationEvent::Check => inp.first_non_progressed.0 > head.0
            || inp.generated@.dom().contains(inp.first_non_progressed)
            || inp.pending@.dom().contains(inp.first_non_progressed),
        CollationEvent::Precollate { slot } => slot.0 > head.0,
        CollationEvent::Complete { request_id, .. } => s.runs(request_id),
        CollationEvent::Fail { .. } => true,
        CollationEvent::SlotEnd { slot, .. } => slot.0 > head.0,
        CollationEvent::RestartDue { slot, .. } => slot.0 > head.0,
        CollationEvent::Built { request, .. } => request.slot.0 > head.0 && (
        request.next matches Some(next) ==> next.0 > request.slot.0),
    }
}

proof fn lemma_check_moves_forward(
    s: CollationView,
    inp: CollationInputs,
)
    requires
        in_order(s),
        s.head is Some,
        s.head->Some_0.window == inp.window,
        past_head(s, inp, CollationEvent::Check, s.head->Some_0.slot),
    ensures
        s.checked(inp).1 matches Ok(Some(q)) ==> q.slot.0 > s.head->Some_0.slot.0,
{
    let head = s.head->Some_0;
    let t = s.refreshed(inp).unstuck(inp);
    lemma_unstuck(s, inp);
    lemma_unstuck(s.refreshed(inp), inp);
    assert(in_order(t));
    assert(t.head == s.head);
    assert(!t.is_stale(inp));
    if head.slot.0 < u32::MAX {
        lemma_precollated_slot(t, inp, SlotIndex((head.slot.0 + 1) as u32));
    }
    let slot = inp.first_non_progressed;
    let parent = inp.available_parent(slot);
    let d = t.act(CollationAction::SetPending(slot, true));
    let u = CollationView { last_generated: Some(slot), ..d };
    forced_empties_repeat_the_parent(u, inp, slot, parent, true, None);
    if d.has_result(slot) {
        let (v, done) = d.generated(inp, slot, d.precollated[slot].result->Some_0);
        assert(in_order(v.paced(inp)));
        if slot.0 < u32::MAX {
            lemma_precollated_slot(v.paced(inp), inp, SlotIndex((slot.0 + 1) as u32));
        }
    }
}

proof fn lemma_complete_moves_forward(
    s: CollationView,
    inp: CollationInputs,
    slot: SlotIndex,
    request_id: u32,
    result: CollationResult,
)
    requires
        in_order(s),
        s.head is Some,
        s.head->Some_0.window == inp.window,
        s.runs(request_id),
    ensures
        step(s, inp, CollationEvent::Complete { slot, request_id, result }).1 matches Ok(Some(q)) ==> q.slot.0 > s.head->Some_0.slot.0,
{
    late_blocks_go_behind_fillers(s, inp, slot, request_id, result);
    lemma_completed(s, inp, slot, request_id, result);
    let (t, done) = s.completed(inp, slot, request_id, result);
    match done {
        Ok(Completed::Then(next)) => {
            lemma_precollated_slot(t, inp, next);
        },
        _ => {},
    }
}

proof fn lemma_fail_moves_forward(
    s: CollationView,
    inp: CollationInputs,
    slot: SlotIndex,
    request_id: u32,
)
    requires
        in_order(s),
        s.head is Some,
        s.head->Some_0.window == inp.window,
    ensures
        s.failed(inp, slot, request_id).1 matches Ok(Some(q)) ==> q.slot.0 > s.head->Some_0.slot.0,
{
    let a = s.released(request_id).without(slot);
    let b = a.refreshed(inp);
    lemma_unstuck(a, inp);
    assert(quiet(s, a));
    lemma_quiet_trans(s, a, b);
    let (place, parent) = b.recovery(inp, slot, s.locked_parent(slot));
    match parent {
        Some(p) => {
            match b.resolve_parent(inp, p) {
                Some(block) => {
                    let at = SlotIndex(place as u32);
                    let result = CollationResult::Empty { parent_block_id: block };
                    lemma_offered(b, inp, at, parent, result, None);
                    let (u, done) = b.offered_then_next(inp, at, parent, result, None);
                    match done {
                        Ok(Completed::Then(next)) => {
                            lemma_precollated_slot(u, inp, next);
                        },
                        _ => {},
                    }
                },
                None => {},
            }
        },
        None => {},
    }
}

proof fn lemma_restart_moves_forward(
    s: CollationView,
    inp: CollationInputs,
    slot: SlotIndex,
    pinned: Option<CollationDeadlineContext>,
)
    requires
        in_order(s),
        s.head is Some,
        s.head->Some_0.window == inp.window,
        slot.0 > s.head->Some_0.slot.0,
    ensures
        s.restart_due(inp, slot, pinned).1 matches Ok(Some(q)) ==> q.slot.0 > s.head->Some_0.slot.0,
{
    forced_empties_repeat_the_parent(
        s,
        inp,
        slot,
        inp.available_parent(slot),
        false,
        pinned,
    );
}

proof fn lemma_built_moves_forward(
    s: CollationView,
    inp: CollationInputs,
    request: PublishRequest,
    desc: Option<GeneratedBlockDesc>,
)
    requires
        in_order(s),
        s.head is Some,
        s.head->Some_0.window == inp.window,
        request.slot.0 > s.head->Some_0.slot.0,
        request.next matches Some(next) ==> next.0 > request.slot.0,
    ensures
        s.built(inp, request, desc).1 matches Ok(Some(q)) ==> q.slot.0 > s.head->Some_0.slot.0
            && q.slot.0 > request.slot.0,
{
    let t = match desc {
        Some(d) => {
            let id = RawCandidateId { slot: request.slot, hash: d.candidate_hash };
            let known = d.has_info(request.parent, request.result is Empty);
            lemma_published(
                s,
                inp,
                request.slot,
                id,
                d.block_id_ext,
                d.gen_utime_ms,
                known,
            );
            s.published(inp, request.slot, id, d.block_id_ext, d.gen_utime_ms, known)
        },
        None => s,
    };
    match request.next {
        Some(next) => {
            lemma_precollated_slot(t, inp, next);
        },
        None => {},
    }
}

/// No slot of a window gets a second candidate: what is published lies past the
/// head, and past the candidate that was just built.
pub proof fn published_slots_move_forward(
    s: CollationView,
    inp: CollationInputs,
    event: CollationEvent,
)
    requires
        in_order(s),
        s.head is Some,
        s.head->Some_0.window == inp.window,
        past_head(s, inp, event, s.head->Some_0.slot),
    ensures
        step(s, inp, event).1 matches Ok(Some(q)) ==> {
            &&& q.slot.0 > s.head->Some_0.slot.0
            &&& event matches CollationEvent::Built { request, .. } ==> q.slot.0 > request.slot.0
        },
{
    match event {
        CollationEvent::Check => {
            lemma_check_moves_forward(s, inp);
        },
        CollationEvent::Precollate { slot } => {
            lemma_precollated_slot(s, inp, slot);
        },
        CollationEvent::Complete { slot, request_id, result } => {
            lemma_complete_moves_forward(s, inp, slot, request_id, result);
        },
        CollationEvent::Fail { slot, request_id } => {
            lemma_fail_moves_forward(s, inp, slot, request_id);
        },
        CollationEvent::SlotEnd { slot, request_id, deadline } => {
            fillers_keep_the_state(s, inp, slot, request_id, deadline);
        },
        CollationEvent::RestartDue { slot, pinned } => {
            lemma_restart_moves_forward(s, inp, slot, pinned);
        },
        CollationEvent::Built { request, desc } => {
            lemma_built_moves_forward(s, inp, request, desc);
        },
    }
}

/// A filler keeps the state: it signs the block of its parent again, and the
/// running collation is not touched but for its next slot's end.
pub proof fn fillers_keep_the_state(
    s: CollationView,
    inp: CollationInputs,
    slot: SlotIndex,
    request_id: u32,
    deadline: TimePoint,
)
    ensures
        ({
            let (t, r) = s.slot_ended(inp, slot, request_id, deadline);
            r matches Ok(Some(q)) ==> {
                &&& q.slot == slot
                &&& q.parent is Some
                &&& s.resolve_parent(inp, q.parent->Some_0) is Some
                &&& q.result == (CollationResult::Empty {
                    parent_block_id: s.resolve_parent(inp, q.parent->Some_0)->Some_0,
                })
                &&& q.funnel_slot is None
                &&& t.precollated == s.precollated
                &&& t.runs(request_id)
            }
        }),
{
}

/// Where a block must be empty, the candidate signs the block of its parent
/// again, in the slot that was asked for.
pub proof fn forced_empties_repeat_the_parent(
    s: CollationView,
    inp: CollationInputs,
    slot: SlotIndex,
    parent: Option<CandidateParentInfo>,
    first_attempt: bool,
    pinned: Option<CollationDeadlineContext>,
)
    ensures
        s.attempted(inp, slot, parent, first_attempt, pinned).1 matches Ok(Some(q)) ==> {
            &&& q.slot == slot
            &&& q.parent == parent
            &&& parent is Some
            &&& q.result == (CollationResult::Empty {
                parent_block_id: s.resolve_parent(inp, parent->Some_0)->Some_0,
            })
        },
{
}

/// A restart races the cutoffs of the collation that failed: where no empty
/// candidate takes its place, they are handed on to the restart, and from there
/// to the collator.
pub proof fn restarts_keep_cutoffs(
    s: CollationView,
    inp: CollationInputs,
    slot: SlotIndex,
    request_id: u32,
    pinned: CollationDeadlineContext,
)
    ensures
        ({
            let t = s.released(request_id).without(slot).refreshed(inp);
            let parent = t.recovery(inp, slot, s.locked_parent(slot)).1;
            let recovers = t.empties_allowed(inp) && parent is Some && t.resolve_parent(
                inp,
                parent->Some_0,
            ) is Some;
            s.runs(request_id) && slot.0 >= inp.first_non_progressed.0 && inp.in_window(slot)
                && !recovers ==> {
                &&& s.failed(inp, slot, request_id).1 == Ok::<
                    Option<PublishRequest>,
                    CollationBreach,
                >(None)
                &&& s.failed(inp, slot, request_id).0.actions == s.actions.push(
                    CollationAction::Restart(
                        slot,
                        Some(s.active->Some_0.deadlines),
                        inp.now.plus_or_same(TimeSpan { nanos: COLLATION_ERROR_RESTART_BACKOFF }),
                    ),
                )
            }
        }),
        ({
            let t = s.restart_due(inp, slot, Some(pinned)).0;
            forall|i: int|
                s.actions.len() <= i < t.actions.len() ==> (#[trigger] t.actions[i] matches
                    CollationAction::Generate(g) ==> g.deadlines == pinned)
        }),
{
    let t = s.restart_due(inp, slot, Some(pinned)).0;
    let parent = inp.available_parent(slot);
    match s.preparation(inp, parent) {
        Ok(CollationPreparation::Ready(prepared)) => {
            match prepared.prev_blocks {
                crate::collation::PrevBlocks::Parent(block) => {
                    if s.next_request_id < u32::MAX {
                        lemma_completed(
                            s.requested(slot, parent),
                            inp,
                            slot,
                            s.next_request_id,
                            CollationResult::Empty { parent_block_id: block },
                        );
                    }
                },
                _ => {},
            }
        },
        _ => {},
    }
}

/// Finalization that was observed is not observed again: the time since it last
/// moved on goes on running.
pub proof fn finalization_is_observed_once(
    s: CollationView,
    inp: CollationInputs,
    later: CollationInputs,
)
    requires
        later.consensus@.last_consensus == inp.consensus@.last_consensus,
    ensures
        s.refreshed(inp).refreshed(later) == s.refreshed(inp),
{
}

/// A block is generated neither before now nor later than a block's time from
/// now. In a masterchain the collator is due when the block may be generated,
/// in a shard a block's time earlier: there it never has to wait.
pub proof fn timing_is_bounded(
    s: CollationView,
    inp: CollationInputs,
    parent: Option<CandidateParentInfo>,
)
    requires
        TIME_POINT_MIN <= inp.now.nanos,
        inp.opts.target_rate.nanos <= TIME_SPAN_MAX,
    ensures
        ({
            let timing = s.timing(inp, parent);
            &&& inp.now.nanos <= timing.min_gen_time.nanos <= inp.next_block_time().nanos
            &&& inp.desc.shard_ident().masterchain() ==> timing.dispatch_time
                == timing.min_gen_time
            &&& !inp.desc.shard_ident().masterchain() ==> timing.dispatch_time
                == timing.min_gen_time.minus(inp.opts.target_rate)
            &&& !inp.desc.shard_ident().masterchain() && timing.min_gen_time.nanos
                - inp.opts.target_rate.nanos >= TIME_POINT_MIN ==> timing.dispatch_time.nanos
                <= inp.now.nanos
        }),
{
}

/// Blocks are made no faster than planned: before the planned time nothing is
/// asked for and nothing is published; and asking for a block plans the next.
pub proof fn collations_are_paced(s: CollationView, inp: CollationInputs)
    requires
        s.earliest is Some,
        inp.now.nanos < s.earliest->Some_0.nanos,
    ensures
        ({
            let (t, r) = s.checked(inp);
            &&& r == Ok::<Option<PublishRequest>, CollationBreach>(None)
            &&& t.next_request_id == s.next_request_id
            &&& t.actions.last() == CollationAction::WakeAt(s.earliest->Some_0)
        }),
        forall|slot: SlotIndex,
            parent: Option<CandidateParentInfo>,
            prepared: PreparedCollation,
            pinned: Option<CollationDeadlineContext>| #[trigger]
            s.dispatched(inp, slot, parent, prepared, pinned).1 is Ok ==> s.dispatched(
                inp,
                slot,
                parent,
                prepared,
                pinned,
            ).0.earliest == Some(inp.next_block_time()),
{
}

/// Once a candidate is out, the next slot of its window follows it, and its
/// block is known without waiting for it to be received.
pub proof fn next_slot_follows_new_candidate(
    s: CollationView,
    inp: CollationInputs,
    slot: SlotIndex,
    id: RawCandidateId,
    block_id: BlockIdExt,
    gen_utime_ms: Option<u64>,
    persisted: bool,
    next: SlotIndex,
)
    requires
        id.slot == slot,
        next.0 == slot.0 + 1,
        inp.desc.window(next) == inp.desc.window(slot),
    ensures
        ({
            let t = s.published(inp, slot, id, block_id, gen_utime_ms, persisted);
            let parent = CandidateParentInfo { slot, hash: id.hash };
            &&& t.head_before(inp, next) == Some(parent)
            &&& t.resolve_parent(inp, parent) == Some(block_id)
            &&& t.filler(inp, next, next) == Some((parent, block_id))
            &&& gen_utime_ms is Some ==> t.parent_time(inp.book@.received, parent) == gen_utime_ms
        }),
{
}

/// A window change leaves nothing of the old window behind: each request is
/// cancelled, nothing runs, and the next block follows what consensus offers.
pub proof fn reset_leaves_nothing(s: CollationView)
    requires
        s.precollated.dom().finite(),
    ensures
        s.reset().precollated == Map::<SlotIndex, crate::collation::PrecollatedBlock>::empty(),
        s.reset().active is None,
        s.reset().head is None,
        s.reset().parents == Map::<RawCandidateId, BlockIdExt>::empty(),
        s.reset().parent_times == Map::<RawCandidateId, u64>::empty(),
        s.reset().max_slot is None,
        s.reset().next_request_id == s.next_request_id,
        s.reset().last_generated == s.last_generated,
        s.reset().earliest == s.earliest,
        forall|slot: SlotIndex| #[trigger]
            s.precollated.dom().contains(slot) ==> {
                &&& s.reset().actions.contains(
                    CollationAction::Cancel(s.precollated[slot].request_id),
                )
                &&& s.reset().actions.contains(
                    CollationAction::Forget(slot, ForgetReason::PipelineReset),
                )
            },
        s.reset().actions == s.actions + cancels(s.precollated, ascending(s.precollated.dom()))
            + forgets(ascending(s.precollated.dom())),
        ascending(s.precollated.dom()).no_duplicates(),
        ascending(s.precollated.dom()).to_set() == s.precollated.dom(),
{
    lemma_ascending_exists(s.precollated.dom());
    let slots = ascending(s.precollated.dom());
    let t = s.reset();
    assert forall|slot: SlotIndex| #[trigger] s.precollated.dom().contains(slot) implies {
        &&& t.actions.contains(CollationAction::Cancel(s.precollated[slot].request_id))
        &&& t.actions.contains(CollationAction::Forget(slot, ForgetReason::PipelineReset))
    } by {
        assert(slots.to_set().contains(slot));
        let i = choose|i: int| 0 <= i < slots.len() && slots[i] == slot;
        let n = s.actions.len();
        assert(t.actions[n + i] == CollationAction::Cancel(s.precollated[slot].request_id));
        assert(t.actions[n + slots.len() + i] == CollationAction::Forget(
            slot,
            ForgetReason::PipelineReset,
        ));
    }
}

proof fn lemma_listing(slots: Set<SlotIndex>) -> (q: Seq<SlotIndex>)
    requires
        slots.finite(),
    ensures
        q.no_duplicates(),
        q.to_set() == slots,
    decreases slots.len(),
{
    if slots.is_empty() {
        let q = Seq::<SlotIndex>::empty();
        assert(q.to_set() =~= slots);
        q
    } else {
        let x = slots.choose();
        let rest = lemma_listing(slots.remove(x));
        let q = rest.push(x);
        assert forall|y: SlotIndex| q.contains(y) <==> slots.contains(y) by {
            if q.contains(y) {
                let i = choose|i: int| 0 <= i < q.len() && q[i] == y;
                if i < rest.len() {
                    assert(rest.to_set().contains(rest[i]));
                }
            }
            if slots.contains(y) {
                if y == x {
                    assert(q[rest.len() as int] == y);
                } else {
                    assert(rest.to_set().contains(y));
                    let i = choose|i: int| 0 <= i < rest.len() && rest[i] == y;
                    assert(q[i] == y);
                }
            }
        }
        assert(q.to_set() =~= slots);
        assert forall|i: int, j: int| 0 <= i < j < q.len() implies q[i] != q[j] by {
            if j == rest.len() {
                assert(rest.to_set().contains(rest[i]));
            }
        }
        q
    }
}

proof fn lemma_ascending_exists(slots: Set<SlotIndex>)
    requires
        slots.finite(),
    ensures
        exists|q: Seq<SlotIndex>|
            #![trigger q.to_set()]
            crate::order::is_sorted(q) && q.no_duplicates() && q.to_set() == slots,
{
    let listed = lemma_listing(slots);
    crate::order::sorting_is_stable(listed);
    crate::order::reordering_keeps_members(listed, crate::order::by_rank(listed));
    assert(crate::order::by_rank(listed).to_set() == slots);
}

} // verus!
