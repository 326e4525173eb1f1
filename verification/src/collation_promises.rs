//! What the collation pipeline owes: that blocks are asked for when their time
//! has come, that what was asked for is published, and that gaps are filled.

use vstd::prelude::*;

use crate::block::{CandidateParentInfo, RawCandidateId, SlotIndex};
use crate::block_desc::GeneratedBlockDesc;
use crate::chain::BlockIdExt;
use crate::collation::{
    max_seqno, CollatedBlock, CollationAction, CollationBreach, CollationDeadlineContext,
    CollationInputs, CollationPreparation, CollationResult, ForgetReason, PrevBlocks,
    PublishRequest, COLLATION_ERROR_RESTART_BACKOFF,
};
use crate::collation_controller::{CollationView, Completed};
use crate::collation_laws::{reset_leaves_nothing, step, CollationEvent};
use crate::time::{TimePoint, TIME_POINT_MAX, TIME_POINT_MIN, TIME_SPAN_MAX};

verus! {

/// Whether the head stands at `slot` or later in the current window, while the
/// collation with this number runs.
pub open spec fn overrun(
    s: CollationView,
    inp: CollationInputs,
    slot: SlotIndex,
    request_id: u32,
) -> bool {
    &&& s.active is Some && s.active->Some_0.request_id == request_id
    &&& s.head is Some && s.head->Some_0.window == inp.window
    &&& s.head->Some_0.slot.0 >= slot.0
}

/// The block of a collation that was asked for is published, whatever slot
/// consensus is at: if its slot lies in the current window and its entry has no
/// result yet, then completing it with a block gives a request to publish that very
/// block. It goes into its slot, with the parent that was fixed when it was
/// asked for; or, if fillers have reached its slot meanwhile, right behind the
/// head, as long as that is still the window. The collation is then over, and the
/// slot behind the block is next.
pub proof fn asked_for_blocks_are_published(
    s: CollationView,
    inp: CollationInputs,
    slot: SlotIndex,
    request_id: u32,
    result: CollationResult,
)
    requires
        inp.desc.window(slot) == inp.window,
        s.precollated.dom().contains(slot),
        s.precollated[slot].result is None,
        result is Block,
        overrun(s, inp, slot, request_id) ==> {
            let head = s.head->Some_0.slot;
            &&& head.0 < u32::MAX - 1
            &&& inp.desc.window(SlotIndex((head.0 + 1) as u32)) == inp.window
        },
        slot.0 < u32::MAX,
    ensures
        ({
            let (t, r) = step(
                s,
                inp,
                CollationEvent::Complete { slot, request_id, result },
            );
            &&& r matches Ok(Some(q)) && {
                &&& q.result == result
                &&& q.funnel_slot == Some(slot)
                &&& overrun(s, inp, slot, request_id) ==> {
                    &&& q.slot.0 == s.head->Some_0.slot.0 + 1
                    &&& q.parent == Some(s.head->Some_0.parent_info)
                }
                &&& !overrun(s, inp, slot, request_id) ==> {
                    &&& q.slot == slot
                    &&& q.parent == s.precollated[slot].parent
                }
                &&& q.next matches Some(next) && next.0 == q.slot.0 + 1
            }
            &&& !t.precollated.dom().contains(slot)
            &&& !(t.active is Some && t.active->Some_0.request_id == request_id)
        }),
{
}

/// A result is dropped only for a reason: its window is over, nobody asked for it
/// and consensus has not reached its slot, or there is a result already. The
/// result for the slot that consensus is at, or an earlier one of the window, is
/// published even if nobody waits for it, unless it is empty without a parent.
pub proof fn results_are_dropped_for_a_reason(
    s: CollationView,
    inp: CollationInputs,
    slot: SlotIndex,
    request_id: u32,
    result: CollationResult,
)
    ensures
        ({
            let (t, done) = s.completed(inp, slot, request_id, result);
            let ahead = slot.0 > inp.first_non_progressed.0;
            &&& done matches Ok(Completed::Done) ==> {
                ||| inp.desc.window(slot) != inp.window
                ||| ahead && !s.precollated.dom().contains(slot)
                ||| ahead && s.precollated[slot].result is Some
            }
            &&& inp.desc.window(slot) != inp.window ==> {
                &&& done == Ok::<Completed, CollationBreach>(Completed::Done)
                &&& !t.precollated.dom().contains(slot)
                &&& t.actions == s.actions.push(
                    CollationAction::Forget(slot, ForgetReason::StaleWindowResult),
                )
            }
            &&& inp.desc.window(slot) == inp.window && !overrun(s, inp, slot, request_id) && !ahead
                && slot.0 < u32::MAX && (result is Block || s.locked_parent(slot) is Some) ==> {
                &&& done matches Ok(Completed::Publish(q)) && q.slot == slot && q.result == result
                    && q.parent == s.locked_parent(slot)
            }
            &&& done is Err ==> done == Err::<Completed, _>(CollationBreach::SlotOverflow) && (slot.0
                == u32::MAX || (overrun(s, inp, slot, request_id) && s.head->Some_0.slot.0
                >= u32::MAX - 1))
        }),
{
}

/// Whether the pipeline has nothing to tidy up first: no collation runs, and head
/// and collations are of the current window.
pub open spec fn is_tidy(s: CollationView, inp: CollationInputs) -> bool {
    &&& s.active is None
    &&& s.head matches Some(head) ==> head.window == inp.window
    &&& forall|x: SlotIndex| #[trigger]
        s.precollated.dom().contains(x) ==> inp.desc.window(x) == inp.window
}

/// Whether it is the local validator's turn in the slot that consensus is at: it
/// leads it, the planned time is there, no candidate was made or is being made,
/// and consensus offers something to build on whose block is known.
pub open spec fn is_its_turn(s: CollationView, inp: CollationInputs) -> bool {
    let slot = inp.first_non_progressed;
    &&& inp.desc.window(slot) == inp.window
    &&& inp.desc.leader(slot) == inp.desc.local()
    &&& s.earliest matches Some(at) ==> at.nanos <= inp.now.nanos
    &&& !inp.generated@.dom().contains(slot)
    &&& !inp.pending@.dom().contains(slot)
    &&& inp.available@.dom().contains(slot)
    &&& inp.available@[slot] matches Some(p) ==> s.parents.dom().contains(p.id())
        || inp.book@.received.dom().contains(p.id())
}

/// Blocks that a block after `parent` follows.
pub open spec fn previous(
    s: CollationView,
    inp: CollationInputs,
    parent: Option<CandidateParentInfo>,
) -> Seq<BlockIdExt> {
    match parent {
        None => inp.session_start@,
        Some(p) => if s.parents.dom().contains(p.id()) {
            seq![s.parents[p.id()]]
        } else if inp.book@.received.dom().contains(p.id()) {
            seq![inp.book@.received[p.id()].block_id]
        } else {
            Seq::<BlockIdExt>::empty()
        },
    }
}

/// Whether the step from `s` to `t` ends with asking for a block in `slot`.
pub open spec fn asks_for(
    s: CollationView,
    t: CollationView,
    inp: CollationInputs,
    slot: SlotIndex,
    parent: Option<CandidateParentInfo>,
) -> bool {
    &&& t.actions.len() > s.actions.len()
    &&& t.actions.last() matches CollationAction::Generate(g) && {
        &&& g.slot == slot
        &&& g.parent == parent
        &&& g.request_id == s.next_request_id
        &&& forall|i: int|
            0 <= i < previous(s, inp, parent).len() ==> g.new_seqno > (#[trigger] previous(
                s,
                inp,
                parent,
            )[i]).seq_no
        &&& exists|i: int|
            0 <= i < previous(s, inp, parent).len() && g.new_seqno == (#[trigger] previous(
                s,
                inp,
                parent,
            )[i]).seq_no + 1
        &&& t.active matches Some(active) && active.request_id == g.request_id
            && active.slot_dispatched == slot && active.window == inp.desc.window(slot)
    }
    &&& t.next_request_id == s.next_request_id + 1
    &&& t.precollated.dom().contains(slot)
    &&& t.precollated[slot].request_id == s.next_request_id
    &&& t.precollated[slot].result is None
    &&& t.precollated[slot].parent == parent
    &&& t.earliest == Some(inp.next_block_time())
    &&& t.max_slot matches Some(max) && max.0 >= slot.0
}

proof fn lemma_max_seqno(blocks: Seq<BlockIdExt>)
    ensures
        forall|i: int| 0 <= i < blocks.len() ==> (#[trigger] blocks[i]).seq_no <= max_seqno(blocks),
        blocks.len() > 0 ==> exists|i: int|
            0 <= i < blocks.len() && (#[trigger] blocks[i]).seq_no == max_seqno(blocks),
    decreases blocks.len(),
{
    if blocks.len() > 0 {
        let rest = blocks.drop_last();
        lemma_max_seqno(rest);
        assert forall|i: int| 0 <= i < blocks.len() implies (#[trigger] blocks[i]).seq_no
            <= max_seqno(blocks) by {
            if i < rest.len() {
                assert(rest[i] == blocks[i]);
            }
        }
        if max_seqno(rest) < blocks.last().seq_no {
            assert(blocks[blocks.len() - 1].seq_no == max_seqno(blocks));
        } else if rest.len() > 0 {
            let i = choose|i: int|
                0 <= i < rest.len() && (#[trigger] rest[i]).seq_no == max_seqno(rest);
            assert(blocks[i].seq_no == max_seqno(blocks));
        } else {
            assert(blocks[0].seq_no == 0);
            assert(blocks[0].seq_no == max_seqno(blocks));
        }
    }
}

/// Whether a block after `parent` can be asked for now, in terms of its parents: at
/// least one and at most two, none of the last seqno, late enough, and not one
/// that must be empty.
pub open spec fn can_ask(
    s: CollationView,
    inp: CollationInputs,
    parent: Option<CandidateParentInfo>,
) -> bool {
    let blocks = previous(s, inp, parent);
    &&& 1 <= blocks.len() <= 2
    &&& forall|i: int| 0 <= i < blocks.len() ==> (#[trigger] blocks[i]).seq_no < u32::MAX
    &&& s.timing(inp, parent).dispatch_time.nanos <= inp.now.nanos
    &&& !is_forced_empty(s, inp, parent)
    &&& s.next_request_id < u32::MAX
}

/// Whether a block after `parent` must be empty.
pub open spec fn is_forced_empty(
    s: CollationView,
    inp: CollationInputs,
    parent: Option<CandidateParentInfo>,
) -> bool {
    let blocks = previous(s, inp, parent);
    inp.must_be_empty(
        (max_seqno(blocks) + 1) as u32,
        if blocks.len() == 1 {
            inp.before_split_flag(blocks[0])
        } else {
            None
        },
    )
}

proof fn lemma_previous(s: CollationView, inp: CollationInputs, parent: Option<CandidateParentInfo>)
    requires
        previous(s, inp, parent).len() > 0,
    ensures
        s.prev_blocks(inp, parent) matches Some(prev) && inp.prev_block_ids(prev) == previous(
            s,
            inp,
            parent,
        ),
        parent is Some ==> s.prev_blocks(inp, parent) == Some(
            PrevBlocks::Parent(previous(s, inp, parent)[0]),
        ),
        parent is None ==> s.prev_blocks(inp, parent) == Some(PrevBlocks::SessionStart),
{
}

proof fn lemma_asks(
    s: CollationView,
    inp: CollationInputs,
    slot: SlotIndex,
    parent: Option<CandidateParentInfo>,
    first_attempt: bool,
    pinned: Option<CollationDeadlineContext>,
)
    requires
        s.active is None,
        can_ask(s, inp, parent),
        first_attempt ==> slot.0 >= inp.first_non_progressed.0,
    ensures
        ({
            let (t, r) = s.attempted(inp, slot, parent, first_attempt, pinned);
            &&& r == Ok::<Option<PublishRequest>, CollationBreach>(None)
            &&& asks_for(s, t, inp, slot, parent)
            &&& t.actions.last()->Generate_0.deadlines == (match pinned {
                Some(d) => d,
                None => CollationView::fresh_deadlines(inp, slot, s.timing(inp, parent)),
            })
            &&& t.actions.last()->Generate_0.min_gen_time == s.timing(inp, parent).min_gen_time
        }),
{
    let blocks = previous(s, inp, parent);
    lemma_previous(s, inp, parent);
    lemma_max_seqno(blocks);
    let (t, r) = s.attempted(inp, slot, parent, first_attempt, pinned);
    let prev = s.prev_blocks(inp, parent)->Some_0;
    assert(s.parent_splits(inp, prev) == (if blocks.len() == 1 {
        inp.before_split_flag(blocks[0])
    } else {
        None
    }));
    let i = choose|i: int| 0 <= i < blocks.len() && (#[trigger] blocks[i]).seq_no == max_seqno(
        blocks,
    );
    assert(max_seqno(blocks) < u32::MAX);
    assert(t.actions.last() is Generate);
    assert(t.actions.last()->Generate_0.new_seqno == blocks[i].seq_no + 1);
}

/// The leader of the slot that consensus is at asks for its block: where it is the
/// local validator's turn, nothing is to be tidied up and no collation was begun
/// for the slot or a later one, a block is asked for that follows what consensus
/// offers, with the seqno after its parents'; and generation for the slot is noted
/// to be under way.
pub proof fn leaders_ask_for_their_block(s: CollationView, inp: CollationInputs)
    requires
        is_tidy(s, inp),
        is_its_turn(s, inp),
        !s.precollated.dom().contains(inp.first_non_progressed),
        s.last_generated matches Some(last) ==> last.0 <= inp.first_non_progressed.0,
        can_ask(s, inp, inp.available@[inp.first_non_progressed]),
    ensures
        ({
            let slot = inp.first_non_progressed;
            let (t, r) = step(s, inp, CollationEvent::Check);
            &&& r == Ok::<Option<PublishRequest>, CollationBreach>(None)
            &&& asks_for(s, t, inp, slot, inp.available@[slot])
            &&& t.actions[s.actions.len() as int] == CollationAction::SetPending(slot, true)
        }),
{
    let slot = inp.first_non_progressed;
    let parent = inp.available@[slot];
    let a = s.refreshed(inp).unstuck(inp);
    assert(a.active is None);
    assert(!a.is_stale(inp));
    let d = a.act(CollationAction::SetPending(slot, true));
    let u = CollationView { last_generated: Some(slot), ..d };
    assert(s.timing(inp, parent) == u.timing(inp, parent));
    lemma_asks(u, inp, slot, parent, true, None);
}

/// A block that was collated ahead of time is published when its slot's turn comes,
/// with the parent that was fixed when it was asked for.
pub proof fn blocks_made_ahead_are_published_in_turn(s: CollationView, inp: CollationInputs)
    requires
        is_tidy(s, inp),
        is_its_turn(s, inp),
        s.precollated.dom().contains(inp.first_non_progressed),
        s.precollated[inp.first_non_progressed].result matches Some(result) && (result is Block
            || s.precollated[inp.first_non_progressed].parent is Some),
        inp.first_non_progressed.0 < u32::MAX,
    ensures
        ({
            let slot = inp.first_non_progressed;
            let (t, r) = step(s, inp, CollationEvent::Check);
            &&& r matches Ok(Some(q)) && {
                &&& q.slot == slot
                &&& Some(q.result) == s.precollated[slot].result
                &&& q.parent == s.precollated[slot].parent
                &&& q.next matches Some(next) && next.0 == slot.0 + 1
            }
            &&& !t.precollated.dom().contains(slot)
            &&& t.earliest == Some(inp.next_block_time())
        }),
{
    let a = s.refreshed(inp).unstuck(inp);
    assert(!a.is_stale(inp));
}

/// Where the leader's block must be empty, a candidate that signs the parent's block
/// again is published at once in its slot; only the first block of a session
/// cannot be.
pub proof fn forced_empties_are_published(s: CollationView, inp: CollationInputs)
    requires
        is_tidy(s, inp),
        is_its_turn(s, inp),
        !s.precollated.dom().contains(inp.first_non_progressed),
        s.last_generated matches Some(last) ==> last.0 <= inp.first_non_progressed.0,
        inp.first_non_progressed.0 < u32::MAX,
        s.next_request_id < u32::MAX,
        s.timing(inp, inp.available@[inp.first_non_progressed]).dispatch_time.nanos
            <= inp.now.nanos,
        is_forced_empty(s, inp, inp.available@[inp.first_non_progressed]),
        forall|i: int|
            0 <= i < previous(s, inp, inp.available@[inp.first_non_progressed]).len() ==> (
            #[trigger] previous(s, inp, inp.available@[inp.first_non_progressed])[i]).seq_no
                < u32::MAX,
        previous(s, inp, inp.available@[inp.first_non_progressed]).len() > 0,
    ensures
        ({
            let slot = inp.first_non_progressed;
            let parent = inp.available@[slot];
            let (t, r) = step(s, inp, CollationEvent::Check);
            &&& parent is None ==> r == Err::<Option<PublishRequest>, _>(
                CollationBreach::EmptyFirstBlock,
            )
            &&& parent is Some ==> {
                &&& r matches Ok(Some(q)) && {
                    &&& q.slot == slot
                    &&& q.parent == parent
                    &&& q.result == (CollationResult::Empty {
                        parent_block_id: previous(s, inp, parent)[0],
                    })
                }
                &&& t.earliest == Some(inp.next_block_time())
                &&& t.active is None
            }
        }),
{
    let slot = inp.first_non_progressed;
    let parent = inp.available@[slot];
    let blocks = previous(s, inp, parent);
    let a = s.refreshed(inp).unstuck(inp);
    assert(!a.is_stale(inp));
    let d = a.act(CollationAction::SetPending(slot, true));
    let u = CollationView { last_generated: Some(slot), ..d };
    assert(s.timing(inp, parent) == u.timing(inp, parent));
    assert(previous(u, inp, parent) == blocks);
    lemma_previous(u, inp, parent);
    lemma_max_seqno(blocks);
    let i = choose|i: int| 0 <= i < blocks.len() && (#[trigger] blocks[i]).seq_no == max_seqno(
        blocks,
    );
    assert(max_seqno(blocks) < u32::MAX);
    let prev = u.prev_blocks(inp, parent)->Some_0;
    assert(u.parent_splits(inp, prev) == (if blocks.len() == 1 {
        inp.before_split_flag(blocks[0])
    } else {
        None
    }));
}

/// A parent that consensus offers and nobody here knows is fetched, and a block whose
/// time has not come is looked at again when it has: nothing is asked for in
/// either case.
pub proof fn obstacles_are_cleared(s: CollationView, inp: CollationInputs)
    requires
        is_tidy(s, inp),
        inp.desc.window(inp.first_non_progressed) == inp.window,
        inp.desc.leader(inp.first_non_progressed) == inp.desc.local(),
        s.earliest matches Some(at) ==> at.nanos <= inp.now.nanos,
        !inp.generated@.dom().contains(inp.first_non_progressed),
        !inp.pending@.dom().contains(inp.first_non_progressed),
        inp.available@.dom().contains(inp.first_non_progressed),
    ensures
        ({
            let slot = inp.first_non_progressed;
            let parent = inp.available@[slot];
            let (t, r) = step(s, inp, CollationEvent::Check);
            let known = parent matches Some(p) ==> s.parents.dom().contains(p.id())
                || inp.book@.received.dom().contains(p.id());
            let due = s.timing(inp, parent).dispatch_time;
            &&& !known ==> {
                &&& r == Ok::<Option<PublishRequest>, CollationBreach>(None)
                &&& t.actions == s.actions.push(
                    CollationAction::RequestParent(parent->Some_0.id()),
                )
                &&& t.next_request_id == s.next_request_id
            }
            &&& known && !s.precollated.dom().contains(slot) && (s.last_generated matches Some(last)
                ==> last.0 <= slot.0) && due.nanos > inp.now.nanos ==> {
                &&& r == Ok::<Option<PublishRequest>, CollationBreach>(None)
                &&& t.actions.last() == CollationAction::WakeAt(due)
                &&& t.next_request_id == s.next_request_id
                &&& t.actions.contains(CollationAction::SetPending(slot, false))
            }
        }),
{
    let slot = inp.first_non_progressed;
    let parent = inp.available@[slot];
    let a = s.refreshed(inp).unstuck(inp);
    assert(!a.is_stale(inp));
    let d = a.act(CollationAction::SetPending(slot, true));
    let u = CollationView { last_generated: Some(slot), ..d };
    assert(s.timing(inp, parent) == u.timing(inp, parent));
    let t = step(s, inp, CollationEvent::Check).0;
    if t.actions.len() >= 2 {
        let n = t.actions.len() as int;
        assert(t.actions.contains(t.actions[n - 2]));
    }
}

/// The slot behind a new candidate is collated for ahead of time: as long as the
/// window has room for another collation, it lies in the window, the local
/// validator leads it and no collation of it or a later slot was begun, a block
/// that follows the head right before it is asked for, or failing such a head one
/// that follows what consensus offers.
pub proof fn next_slots_are_collated_ahead(s: CollationView, inp: CollationInputs, slot: SlotIndex)
    requires
        s.active is None,
        s.precollated.dom().len() + 1 < inp.desc.window_len(),
        !s.precollated.dom().contains(slot),
        inp.desc.window(slot) == inp.window,
        inp.desc.leader(slot) == inp.desc.local(),
        slot.0 >= inp.first_non_progressed.0,
        s.last_generated matches Some(last) ==> last.0 <= slot.0,
        ({
            let follows_head = s.head matches Some(head) && head.window == inp.desc.window(slot)
                && head.slot.0 + 1 == slot.0;
            let parent = if follows_head {
                Some(s.head->Some_0.parent_info)
            } else {
                inp.available@[slot]
            };
            &&& follows_head || inp.available@.dom().contains(slot)
            &&& can_ask(s, inp, parent)
        }),
    ensures
        ({
            let (t, r) = step(s, inp, CollationEvent::Precollate { slot });
            let follows_head = s.head matches Some(head) && head.window == inp.desc.window(slot)
                && head.slot.0 + 1 == slot.0;
            let parent = if follows_head {
                Some(s.head->Some_0.parent_info)
            } else {
                inp.available@[slot]
            };
            &&& r == Ok::<Option<PublishRequest>, CollationBreach>(None)
            &&& asks_for(s, t, inp, slot, parent)
        }),
{
    let follows_head = s.head matches Some(head) && head.window == inp.desc.window(slot)
        && head.slot.0 + 1 == slot.0;
    let parent = if follows_head {
        Some(s.head->Some_0.parent_info)
    } else {
        inp.available@[slot]
    };
    let u = CollationView { last_generated: Some(slot), ..s };
    lemma_previous(s, inp, parent);
    assert(previous(u, inp, parent) == previous(s, inp, parent));
    assert(s.timing(inp, parent) == u.timing(inp, parent));
    lemma_asks(u, inp, slot, parent, true, None);
}

/// A candidate that was built goes out: it is sent to the others and taken in here,
/// both exactly once and after it was stored, if there is anything to store, and
/// its slot counts as generated and sent. It is the head then, and its block and
/// time are known. A candidate that could not be built leaves no trace.
pub proof fn built_candidates_go_out(
    s: CollationView,
    inp: CollationInputs,
    request: PublishRequest,
    desc: Option<GeneratedBlockDesc>,
)
    requires
        request.next is None,
    ensures
        ({
            let (t, r) = step(s, inp, CollationEvent::Built { request, desc });
            &&& r == Ok::<Option<PublishRequest>, CollationBreach>(None)
            &&& desc is None ==> t == s
            &&& desc matches Some(d) ==> {
                let id = RawCandidateId { slot: request.slot, hash: d.candidate_hash };
                let n = s.actions.len() as int;
                let m = if d.has_info(request.parent, request.result is Empty) {
                    n + 1
                } else {
                    n
                };
                &&& t.actions.len() == m + 5
                &&& t.actions.take(n) == s.actions
                &&& m > n ==> t.actions[n] == CollationAction::Persist(id)
                &&& t.actions[m] == CollationAction::Broadcast(id)
                &&& t.actions[m + 1] == CollationAction::SelfReceive(id)
                &&& t.actions[m + 2] == CollationAction::SetPending(request.slot, false)
                &&& t.actions[m + 3] == CollationAction::SetGenerated(request.slot)
                &&& t.actions[m + 4] == CollationAction::SetSent(request.slot)
                &&& t.head matches Some(head) && {
                    &&& head.slot == request.slot
                    &&& head.window == inp.desc.window(request.slot)
                    &&& head.parent_info.slot == request.slot
                    &&& head.parent_info.hash == d.candidate_hash
                    &&& head.gen_utime_ms == d.gen_utime_ms
                }
                &&& t.parents.dom().contains(id) && t.parents[id] == d.block_id_ext
                &&& d.gen_utime_ms matches Some(ms) ==> t.parent_times.dom().contains(id)
                    && t.parent_times[id] == ms
                &&& t.precollated == s.precollated
                &&& t.active == s.active
            }
        }),
{
    let t = step(s, inp, CollationEvent::Built { request, desc }).0;
    if desc is Some {
        assert(t.actions.take(s.actions.len() as int) =~= s.actions);
    }
}

/// Whether finalization moved on recently enough for empty candidates, as seen
/// once `inp` is observed.
pub open spec fn finality_is_fresh(s: CollationView, inp: CollationInputs) -> bool {
    let moved = match (inp.consensus@.last_consensus, s.observed_seqno) {
        (Some(new), Some(old)) => new > old,
        (Some(_), None) => true,
        (None, _) => false,
    };
    moved || (s.finalized_at matches Some(at) && inp.now.nanos <= at.nanos
        + inp.opts.no_empty_blocks_on_error_timeout.nanos)
}

/// Empty candidates are allowed exactly while finalization is fresh: up to and with
/// the end of the timeout since it last moved on, and never before it was seen to
/// move.
pub proof fn empties_need_fresh_finality(s: CollationView, inp: CollationInputs)
    requires
        TIME_POINT_MIN <= inp.now.nanos <= TIME_POINT_MAX,
        inp.opts.no_empty_blocks_on_error_timeout.nanos <= TIME_SPAN_MAX,
        s.finalized_at matches Some(at) ==> TIME_POINT_MIN <= at.nanos <= TIME_POINT_MAX,
    ensures
        s.refreshed(inp).empties_allowed(inp) <==> finality_is_fresh(s, inp),
        ({
            let t = s.refreshed(inp);
            &&& t.finalized_at != s.finalized_at ==> t.finalized_at == Some(inp.now)
                && t.observed_seqno == inp.consensus@.last_consensus
            &&& t.observed_seqno matches Some(seen) ==> (inp.consensus@.last_consensus matches Some(
                n,
            ) ==> seen >= n)
        }),
{
}

/// While a collation overruns its slots, they are filled: when a slot of the current
/// window ends, finalization is fresh, and the slot follows the head right before
/// it, or is the collation's own and has a parent, then a candidate that signs
/// the parent's block again is published in it, and the end of the slot behind it
/// is waited for. Without fresh finalization or a parent that is known, nothing is
/// published, and the end of the same slot is waited for again.
pub proof fn overrun_slots_are_filled(
    s: CollationView,
    inp: CollationInputs,
    slot: SlotIndex,
    request_id: u32,
    deadline: TimePoint,
)
    requires
        s.active matches Some(active) && active.request_id == request_id && active.window
            == inp.window,
        inp.desc.window(slot) == inp.window,
        slot.0 < u32::MAX,
        TIME_POINT_MIN <= inp.now.nanos,
        inp.opts.target_rate.nanos <= TIME_SPAN_MAX,
        inp.now.nanos + inp.opts.target_rate.nanos <= TIME_POINT_MAX,
        deadline.nanos + inp.opts.target_rate.nanos <= TIME_POINT_MAX,
        inp.opts.no_empty_blocks_on_error_timeout.nanos <= TIME_SPAN_MAX,
        s.finalized_at matches Some(at) ==> TIME_POINT_MIN <= at.nanos <= TIME_POINT_MAX,
    ensures
        ({
            let (t, r) = step(s, inp, CollationEvent::SlotEnd { slot, request_id, deadline });
            let dispatched = s.active->Some_0.slot_dispatched;
            let parent = if s.head matches Some(head) && head.window == inp.window && head.slot.0
                + 1 == slot.0 {
                Some(s.head->Some_0.parent_info)
            } else if slot == dispatched && s.precollated.dom().contains(slot) {
                s.precollated[slot].parent
            } else {
                None
            };
            let fills = finality_is_fresh(s, inp) && parent is Some && previous(
                s,
                inp,
                parent,
            ).len() == 1;
            &&& fills ==> (r matches Ok(Some(q)) && {
                &&& q.slot == slot
                &&& q.parent == parent
                &&& q.result == (CollationResult::Empty {
                    parent_block_id: previous(s, inp, parent)[0],
                })
            })
            &&& !fills ==> r == Ok::<Option<PublishRequest>, CollationBreach>(None)
            &&& t.actions.len() == s.actions.len() + 1
            &&& t.actions.last() matches CollationAction::SlotWake(woken, id, at) && {
                &&& woken.0 == (if fills {
                    slot.0 + 1
                } else {
                    slot.0 as int
                })
                &&& id == request_id
                &&& at == t.active->Some_0.next_slot_deadline
                &&& deadline.nanos + inp.opts.target_rate.nanos > inp.now.nanos ==> at.nanos
                    == deadline.nanos + inp.opts.target_rate.nanos
                &&& deadline.nanos + inp.opts.target_rate.nanos <= inp.now.nanos ==> at.nanos
                    == inp.now.nanos + inp.opts.target_rate.nanos
            }
            &&& t.active matches Some(active) && active.request_id == request_id
                && active.slot_dispatched == dispatched
        }),
{
    empties_need_fresh_finality(s, inp);
}

/// A collation that fails in the current window is made good: if finalization is
/// fresh and its parent's block is known, a candidate that signs that block again is
/// published in its slot, or right behind the head if fillers have reached it;
/// else it is restarted after [`COLLATION_ERROR_RESTART_BACKOFF`]. Only a slot that
/// consensus is done with, or one of another window, is left alone.
pub proof fn failed_collations_are_made_good(
    s: CollationView,
    inp: CollationInputs,
    slot: SlotIndex,
    request_id: u32,
)
    requires
        TIME_POINT_MIN <= inp.now.nanos <= TIME_POINT_MAX - COLLATION_ERROR_RESTART_BACKOFF,
        inp.opts.no_empty_blocks_on_error_timeout.nanos <= TIME_SPAN_MAX,
        s.finalized_at matches Some(at) ==> TIME_POINT_MIN <= at.nanos <= TIME_POINT_MAX,
        slot.0 < u32::MAX,
        s.head matches Some(head) ==> head.slot.0 < u32::MAX - 1,
    ensures
        ({
            let (t, r) = step(s, inp, CollationEvent::Fail { slot, request_id });
            let filled = s.head matches Some(head) && head.window == inp.window && head.slot.0
                >= slot.0;
            let parent = if filled {
                Some(s.head->Some_0.parent_info)
            } else {
                s.locked_parent(slot)
            };
            let place = if filled {
                s.head->Some_0.slot.0 + 1
            } else {
                slot.0 as int
            };
            let over = slot.0 < inp.first_non_progressed.0 || inp.desc.window(slot) != inp.window;
            let fills = finality_is_fresh(s, inp) && parent is Some && previous(
                s,
                inp,
                parent,
            ).len() == 1;
            &&& over ==> {
                &&& r == Ok::<Option<PublishRequest>, CollationBreach>(None)
                &&& t.actions == s.actions
            }
            &&& !over && fills && inp.desc.window(SlotIndex(place as u32)) == inp.window ==> (
            r matches Ok(Some(q)) && {
                &&& q.slot.0 == place
                &&& q.parent == parent
                &&& q.result == (CollationResult::Empty {
                    parent_block_id: previous(s, inp, parent)[0],
                })
                &&& q.next matches Some(next) && next.0 == place + 1
            })
            &&& !over && !fills ==> {
                &&& r == Ok::<Option<PublishRequest>, CollationBreach>(None)
                &&& t.actions.len() == s.actions.len() + 1
                &&& t.actions.last() matches CollationAction::Restart(at_slot, pinned, at) && {
                    &&& at_slot == slot
                    &&& at.nanos == inp.now.nanos + COLLATION_ERROR_RESTART_BACKOFF
                    &&& pinned is Some <==> s.active is Some && s.active->Some_0.request_id
                        == request_id
                    &&& pinned matches Some(p) ==> p == s.active->Some_0.deadlines
                }
            }
            &&& over || !fills ==> !t.precollated.dom().contains(slot) && !(t.active matches Some(a)
                && a.request_id == request_id)
        }),
{
    let u = s.released(request_id).without(slot);
    empties_need_fresh_finality(u, inp);
}

/// A restart that is due asks for the block again, with the cutoffs that it was
/// handed: unless consensus is done with the slot, a collation runs, another slot was
/// begun later, or the slot has an entry.
pub proof fn due_restarts_ask_again(
    s: CollationView,
    inp: CollationInputs,
    slot: SlotIndex,
    pinned: CollationDeadlineContext,
)
    requires
        s.active is None,
        slot.0 >= inp.first_non_progressed.0,
        s.max_slot matches Some(max) ==> max == slot,
        !s.precollated.dom().contains(slot),
        inp.desc.leader(slot) == inp.desc.local(),
        can_ask(
            s,
            inp,
            if inp.available@.dom().contains(slot) {
                inp.available@[slot]
            } else {
                None
            },
        ),
    ensures
        ({
            let (t, r) = step(
                s,
                inp,
                CollationEvent::RestartDue { slot, pinned: Some(pinned) },
            );
            let parent = if inp.available@.dom().contains(slot) {
                inp.available@[slot]
            } else {
                None
            };
            &&& r == Ok::<Option<PublishRequest>, CollationBreach>(None)
            &&& asks_for(s, t, inp, slot, parent)
            &&& t.actions.last()->Generate_0.deadlines == pinned
        }),
{
    let parent = inp.available_parent(slot);
    lemma_asks(s, inp, slot, parent, false, Some(pinned));
}

/// A block is generated a block's time after its parent where the clock allows it: if
/// that time is neither past nor more than a block's time away, it is the time of
/// generation; if it is past, or the parent's time is not known, the block is
/// generated now; if it is further away, after a block's time.
pub proof fn blocks_keep_their_distance(
    s: CollationView,
    inp: CollationInputs,
    parent: Option<CandidateParentInfo>,
)
    requires
        TIME_POINT_MIN <= inp.now.nanos,
        inp.opts.target_rate.nanos <= TIME_SPAN_MAX / 2,
        inp.now.nanos + inp.opts.target_rate.nanos <= TIME_POINT_MAX,
    ensures
        ({
            let timing = s.timing(inp, parent);
            let rate = inp.opts.target_rate.nanos as int;
            let now = inp.now.nanos as int;
            &&& timing.parent_gen_utime_ms matches Some(ms) ==> {
                let due = ms as int * 1_000_000 + rate;
                &&& now <= due <= now + rate ==> timing.min_gen_time.nanos == due
                &&& due < now ==> timing.min_gen_time.nanos == now
                &&& now + rate < due && due <= TIME_POINT_MAX ==> timing.min_gen_time.nanos == now
                    + rate
            }
            &&& timing.parent_gen_utime_ms is None ==> timing.min_gen_time.nanos == now
            &&& parent is None ==> timing.parent_gen_utime_ms is None
            &&& inp.desc.shard_ident().masterchain() ==> timing.dispatch_time.nanos
                == timing.min_gen_time.nanos
            &&& !inp.desc.shard_ident().masterchain() && timing.min_gen_time.nanos - rate
                >= TIME_POINT_MIN ==> timing.dispatch_time.nanos == timing.min_gen_time.nanos - rate
        }),
{
}

/// The generation time of a parent is that of the candidate made here, failing that
/// the one in the book, failing that the head's, if the head is the parent.
pub proof fn parent_times_are_found(
    s: CollationView,
    inp: CollationInputs,
    parent: CandidateParentInfo,
)
    ensures
        ({
            let found = s.timing(inp, Some(parent)).parent_gen_utime_ms;
            let id = RawCandidateId { slot: parent.slot, hash: parent.hash };
            let here = s.parent_times.dom().contains(id);
            let book = inp.book@.received.dom().contains(id)
                && inp.book@.received[id].gen_utime_ms is Some;
            let head = s.head matches Some(h) && h.parent_info == parent;
            &&& here ==> found == Some(s.parent_times[id])
            &&& !here && book ==> found == inp.book@.received[id].gen_utime_ms
            &&& !here && !book && head ==> found == s.head->Some_0.gen_utime_ms
            &&& !here && !book && !head ==> found is None
        }),
{
}

/// A block must be empty exactly if the shard splits after its parent, which the
/// finalized head answers for where nothing is known of the parent, or if finality
/// is behind: on the masterchain if a block in between is not finalized, elsewhere
/// if it would be more than the threshold past the registered seqno.
pub proof fn lagging_finality_forces_empties(
    inp: CollationInputs,
    new_seqno: u32,
    parent_before_split: Option<bool>,
)
    ensures
        inp.must_be_empty(new_seqno, parent_before_split) <==> {
            ||| parent_before_split == Some(true)
            ||| parent_before_split is None && inp.consensus@.head_before_split
            ||| inp.desc.shard_ident().masterchain() && (inp.consensus@.last_consensus matches Some(
                finalized,
            ) && new_seqno > finalized + 1)
            ||| !inp.desc.shard_ident().masterchain() && (inp.consensus@.last_mc matches Some(
                registered,
            ) && (inp.opts.empty_block_mc_lag_threshold matches Some(lag) && new_seqno > registered
                + lag))
        },
{
}

/// Whether the shard splits after a block is what was noted of the block, failing that
/// what is known of the finalized head, if that is the block; else it is not known.
pub proof fn split_flags_are_found(inp: CollationInputs, block: BlockIdExt)
    ensures
        ({
            let flag = inp.before_split_flag(block);
            let noted = inp.consensus@.before_split.dom().contains(block);
            &&& noted ==> flag == Some(inp.consensus@.before_split[block])
            &&& !noted && inp.consensus@.head_block == Some(block) ==> flag == Some(
                inp.consensus@.head_before_split,
            )
            &&& !noted && inp.consensus@.head_block != Some(block) ==> flag is None
        }),
{
}

/// A preparation is ready exactly if the parent's block is known, the time has come
/// and seqnos are left; the new block then follows that block, or the session's
/// start, with the seqno after the largest of its parents'.
pub proof fn preparations_follow_the_parent(
    s: CollationView,
    inp: CollationInputs,
    parent: Option<CandidateParentInfo>,
)
    ensures
        ({
            let known = parent matches Some(p) ==> s.parents.dom().contains(p.id())
                || inp.book@.received.dom().contains(p.id());
            let due = s.timing(inp, parent).dispatch_time;
            let blocks = previous(s, inp, parent);
            match s.preparation(inp, parent) {
                Ok(CollationPreparation::WaitingForParent) => !known,
                Ok(CollationPreparation::Deferred(at)) => {
                    &&& known
                    &&& at == due
                    &&& at.nanos > inp.now.nanos
                },
                Ok(CollationPreparation::Ready(p)) => {
                    &&& known
                    &&& due.nanos <= inp.now.nanos
                    &&& inp.prev_block_ids(p.prev_blocks) == blocks
                    &&& forall|i: int|
                        0 <= i < blocks.len() ==> p.new_seqno > (#[trigger] blocks[i]).seq_no
                    &&& blocks.len() > 0 ==> exists|i: int|
                        0 <= i < blocks.len() && p.new_seqno == (#[trigger] blocks[i]).seq_no + 1
                    &&& p.timing == s.timing(inp, parent)
                    &&& p.is_first_session_block <==> parent is None
                },
                Err(breach) => {
                    &&& breach is SeqnoOverflow
                    &&& known && due.nanos <= inp.now.nanos
                    &&& exists|i: int|
                        0 <= i < blocks.len() && (#[trigger] blocks[i]).seq_no == u32::MAX
                },
            }
        }),
{
    let blocks = previous(s, inp, parent);
    lemma_max_seqno(blocks);
    if blocks.len() > 0 {
        lemma_previous(s, inp, parent);
        let i = choose|i: int|
            0 <= i < blocks.len() && (#[trigger] blocks[i]).seq_no == max_seqno(blocks);
        assert(blocks[i].seq_no == max_seqno(blocks));
        if let Ok(CollationPreparation::Ready(p)) = s.preparation(inp, parent) {
            assert(p.new_seqno == blocks[i].seq_no + 1);
        }
    }
}

/// A collation that is asked for has its slot's end planned a block's time after its
/// own, and the next collation a block's time from now.
pub proof fn asked_for_blocks_are_watched(
    s: CollationView,
    inp: CollationInputs,
    slot: SlotIndex,
    parent: Option<CandidateParentInfo>,
)
    requires
        s.active is None,
        can_ask(s, inp, parent),
        slot.0 >= inp.first_non_progressed.0,
        inp.opts.target_rate.nanos <= TIME_SPAN_MAX,
        s.timing(inp, parent).min_gen_time.nanos + inp.opts.target_rate.nanos <= TIME_POINT_MAX,
    ensures
        ({
            let t = s.attempted(inp, slot, parent, true, None).0;
            let n = t.actions.len() as int;
            let g = t.actions[n - 1]->Generate_0;
            &&& n == s.actions.len() + 2
            &&& t.actions[n - 1] is Generate
            &&& t.actions[n - 2] matches CollationAction::SlotWake(woken, id, at) && {
                &&& woken == slot
                &&& id == g.request_id
                &&& at.nanos == g.min_gen_time.nanos + inp.opts.target_rate.nanos
                &&& at == t.active->Some_0.next_slot_deadline
            }
        }),
{
    lemma_asks(s, inp, slot, parent, true, None);
}

/// Nothing is started out of turn: a look at collation before the planned time, in a
/// window that is over, for a slot that others lead, that has a candidate or has one
/// under way, or that consensus offers nothing to build on, asks for no block in
/// that slot.
pub proof fn nothing_is_started_out_of_turn(s: CollationView, inp: CollationInputs)
    requires
        ({
            let slot = inp.first_non_progressed;
            ||| s.earliest matches Some(at) && inp.now.nanos < at.nanos
            ||| inp.desc.window(slot).0 < inp.window.0
            ||| !inp.generated@.dom().contains(slot) && !inp.pending@.dom().contains(slot) && {
                ||| inp.desc.leader(slot) != inp.desc.local()
                ||| !inp.available@.dom().contains(slot)
            }
        }),
    ensures
        ({
            let (t, r) = step(s, inp, CollationEvent::Check);
            &&& r == Ok::<Option<PublishRequest>, CollationBreach>(None)
            &&& t.next_request_id == s.next_request_id
        }),
{
}

/// The slot behind the head is refilled: when a candidate was made or is under way for
/// the slot that consensus is at, and the head stands in the current window, a look at
/// collation asks for a block in the slot behind the head that follows the head, as
/// long as nothing was made, is under way or was asked for there, and the window has
/// room for it.
pub proof fn slots_behind_the_head_are_refilled(s: CollationView, inp: CollationInputs)
    requires
        is_tidy(s, inp),
        s.earliest matches Some(at) ==> at.nanos <= inp.now.nanos,
        inp.desc.window(inp.first_non_progressed).0 >= inp.window.0,
        inp.generated@.dom().contains(inp.first_non_progressed)
            || inp.pending@.dom().contains(inp.first_non_progressed),
        s.head matches Some(head) && head.slot.0 < u32::MAX && {
            let next = SlotIndex((head.slot.0 + 1) as u32);
            &&& inp.desc.window(next) == inp.window
            &&& inp.desc.leader(next) == inp.desc.local()
            &&& next.0 >= inp.first_non_progressed.0
            &&& !inp.generated@.dom().contains(next)
            &&& !inp.pending@.dom().contains(next)
            &&& !s.precollated.dom().contains(next)
            &&& s.last_generated matches Some(last) ==> last.0 <= next.0
            &&& can_ask(s, inp, Some(head.parent_info))
        },
        s.precollated.dom().len() + 1 < inp.desc.window_len(),
    ensures
        ({
            let (t, r) = step(s, inp, CollationEvent::Check);
            let head = s.head->Some_0;
            &&& r == Ok::<Option<PublishRequest>, CollationBreach>(None)
            &&& asks_for(
                s,
                t,
                inp,
                SlotIndex((head.slot.0 + 1) as u32),
                Some(head.parent_info),
            )
        }),
{
    let head = s.head->Some_0;
    let next = SlotIndex((head.slot.0 + 1) as u32);
    let a = s.refreshed(inp).unstuck(inp);
    assert(!a.is_stale(inp));
    assert(s.timing(inp, Some(head.parent_info)) == a.timing(inp, Some(head.parent_info)));
    assert(previous(a, inp, Some(head.parent_info)) == previous(s, inp, Some(head.parent_info)));
    next_slots_are_collated_ahead(a, inp, next);
}

/// A slot that was asked for already is not asked for again: as long as the last
/// collation has no result, nothing happens; once it has one, the slot behind it is
/// collated for instead.
pub proof fn collations_ahead_go_on_behind_the_last(
    s: CollationView,
    inp: CollationInputs,
    slot: SlotIndex,
)
    requires
        s.active is None,
        s.precollated.dom().contains(slot),
        s.max_slot is Some,
        s.precollated.dom().len() + 1 < inp.desc.window_len(),
    ensures
        ({
            let max = s.max_slot->Some_0;
            let done = s.precollated.dom().contains(max) && s.precollated[max].result is Some;
            let next = SlotIndex((max.0 + 1) as u32);
            let follows_head = s.head matches Some(head) && head.window == inp.desc.window(next)
                && head.slot.0 + 1 == next.0;
            let parent = if follows_head {
                Some(s.head->Some_0.parent_info)
            } else {
                inp.available@[next]
            };
            let (t, r) = step(s, inp, CollationEvent::Precollate { slot });
            &&& !done ==> t == s && r == Ok::<Option<PublishRequest>, CollationBreach>(None)
            &&& done && max.0 == u32::MAX ==> r == Err::<Option<PublishRequest>, _>(
                CollationBreach::SlotOverflow,
            )
            &&& done && max.0 < u32::MAX && !s.precollated.dom().contains(next) && inp.desc.window(
                next,
            ) == inp.window && inp.desc.leader(next) == inp.desc.local() && next.0
                >= inp.first_non_progressed.0 && (s.last_generated matches Some(last) ==> last.0
                <= next.0) && (follows_head || inp.available@.dom().contains(next)) && can_ask(
                s,
                inp,
                parent,
            ) ==> asks_for(s, t, inp, next, parent)
        }),
{
    let max = s.max_slot->Some_0;
    let done = s.precollated.dom().contains(max) && s.precollated[max].result is Some;
    if done && max.0 < u32::MAX {
        let next = SlotIndex((max.0 + 1) as u32);
        let follows_head = s.head matches Some(head) && head.window == inp.desc.window(next)
            && head.slot.0 + 1 == next.0;
        let parent = if follows_head {
            Some(s.head->Some_0.parent_info)
        } else {
            inp.available@[next]
        };
        if !s.precollated.dom().contains(next) && inp.desc.window(next) == inp.window
            && inp.desc.leader(next) == inp.desc.local() && next.0 >= inp.first_non_progressed.0 && (
        s.last_generated matches Some(last) ==> last.0 <= next.0) && (follows_head
            || inp.available@.dom().contains(next)) && can_ask(s, inp, parent) {
            let u = CollationView { last_generated: Some(next), ..s };
            lemma_previous(s, inp, parent);
            assert(previous(u, inp, parent) == previous(s, inp, parent));
            assert(s.timing(inp, parent) == u.timing(inp, parent));
            lemma_asks(u, inp, next, parent, true, None);
        }
    }
}

/// A collation of a window that is over is stopped by a look at collation: it no
/// longer runs, its slot is free, its request is cancelled if it has an entry, and its
/// tracking ends.
pub proof fn collations_of_past_windows_are_cancelled(s: CollationView, inp: CollationInputs)
    requires
        s.active matches Some(active) && active.window != inp.window,
        s.earliest matches Some(at) && inp.now.nanos < at.nanos,
    ensures
        ({
            let t = step(s, inp, CollationEvent::Check).0;
            let slot = s.active->Some_0.slot_dispatched;
            &&& t.active is None
            &&& t.precollated == s.precollated.remove(slot)
            &&& s.precollated.dom().contains(slot) ==> t.actions.contains(
                CollationAction::Cancel(s.precollated[slot].request_id),
            )
            &&& t.actions.contains(CollationAction::Forget(slot, ForgetReason::StaleWindowCleared))
        }),
{
    let t = step(s, inp, CollationEvent::Check).0;
    let n = t.actions.len() as int;
    assert(t.actions.contains(t.actions[n - 2]));
    if s.precollated.dom().contains(s.active->Some_0.slot_dispatched) {
        assert(t.actions.contains(t.actions[n - 3]));
    }
}

/// What is left of another window is cleared by a look at collation: if the head stands
/// in another window, or without a head some collation does, all requests are
/// cancelled, and nothing is left of the pipeline.
pub proof fn leftovers_of_other_windows_are_cleared(
    s: CollationView,
    inp: CollationInputs,
    slot: SlotIndex,
)
    requires
        s.precollated.dom().finite(),
        s.active is None,
        s.earliest matches Some(at) ==> at.nanos <= inp.now.nanos,
        inp.desc.window(inp.first_non_progressed).0 >= inp.window.0,
        !inp.generated@.dom().contains(inp.first_non_progressed),
        !inp.pending@.dom().contains(inp.first_non_progressed),
        !inp.available@.dom().contains(inp.first_non_progressed),
        s.precollated.dom().contains(slot),
        s.head matches Some(head) ==> head.window != inp.window,
        s.head is None ==> inp.desc.window(slot) != inp.window,
    ensures
        ({
            let t = step(s, inp, CollationEvent::Check).0;
            &&& forall|x: SlotIndex| !#[trigger] t.precollated.dom().contains(x)
            &&& t.head is None && t.max_slot is None && t.active is None
            &&& t.actions.contains(CollationAction::Cancel(s.precollated[slot].request_id))
        }),
{
    let a = s.refreshed(inp).unstuck(inp);
    assert(a == s.refreshed(inp));
    assert(a.precollated.dom().contains(slot));
    if s.head is None {
        assert(!inp.in_window(slot));
    }
    assert(a.is_stale(inp));
    reset_leaves_nothing(a);
    assert(step(s, inp, CollationEvent::Check).0 == a.reset());
}

/// A late block whose place would be in the next window is not published: the pipeline
/// forgets its head and what it knows of candidates made here, since the next window
/// builds on what consensus offers, and goes on with the slot behind.
pub proof fn late_blocks_stay_in_their_window(
    s: CollationView,
    inp: CollationInputs,
    slot: SlotIndex,
    request_id: u32,
    result: CollationResult,
)
    requires
        inp.desc.window(slot) == inp.window,
        overrun(s, inp, slot, request_id),
        s.head->Some_0.slot.0 < u32::MAX - 1,
        inp.desc.window(SlotIndex((s.head->Some_0.slot.0 + 1) as u32)) != inp.window,
    ensures
        ({
            let (t, done) = s.completed(inp, slot, request_id, result);
            &&& done matches Ok(Completed::Then(next)) && next.0 == s.head->Some_0.slot.0 + 2
            &&& step(s, inp, CollationEvent::Complete { slot, request_id, result }) == step(
                t,
                inp,
                CollationEvent::Precollate { slot: done->Ok_0->Then_0 },
            )
            &&& t.head is None
            &&& t.parents == Map::<RawCandidateId, BlockIdExt>::empty()
            &&& t.parent_times == Map::<RawCandidateId, u64>::empty()
            &&& !t.precollated.dom().contains(slot)
            &&& t.active is None
        }),
{
}

/// Collations begin in the order of their slots: beginning one for an earlier slot than
/// the last is a breach and changes nothing, and else that slot is the last one begun.
/// A slot that others lead, or that was asked for already, begins nothing.
pub proof fn collations_begin_in_order(
    s: CollationView,
    inp: CollationInputs,
    slot: SlotIndex,
    parent: Option<CandidateParentInfo>,
)
    ensures
        ({
            let (t, r) = s.invoked(inp, slot, parent);
            let begins = inp.desc.leader(slot) == inp.desc.local()
                && !s.precollated.dom().contains(slot);
            let late = s.last_generated matches Some(last) && slot.0 < last.0;
            &&& !begins ==> t == s && r == Ok::<Option<PublishRequest>, CollationBreach>(None)
            &&& begins && late ==> t == s && r == Err::<Option<PublishRequest>, _>(
                CollationBreach::SlotsOutOfOrder,
            )
            &&& begins && !late ==> t.last_generated == Some(slot)
        }),
{
}

/// A block that could be asked for now is not if something that must not be stands
/// against it, which is then reported: consensus is done with the slot, request
/// numbers are used up, or the block would follow none or more than two.
pub proof fn breaches_stop_collation(
    s: CollationView,
    inp: CollationInputs,
    slot: SlotIndex,
    parent: Option<CandidateParentInfo>,
)
    requires
        s.active is None,
        previous(s, inp, parent).len() > 0,
        forall|i: int|
            0 <= i < previous(s, inp, parent).len() ==> (#[trigger] previous(
                s,
                inp,
                parent,
            )[i]).seq_no < u32::MAX,
        s.timing(inp, parent).dispatch_time.nanos <= inp.now.nanos,
        !is_forced_empty(s, inp, parent),
    ensures
        ({
            let (t, r) = s.attempted(inp, slot, parent, true, None);
            &&& slot.0 < inp.first_non_progressed.0 ==> r == Err::<Option<PublishRequest>, _>(
                CollationBreach::ProgressedSlot,
            )
            &&& slot.0 >= inp.first_non_progressed.0 && s.next_request_id == u32::MAX ==> r == Err::<
                Option<PublishRequest>,
                _,
            >(CollationBreach::RequestIdOverflow)
            &&& slot.0 >= inp.first_non_progressed.0 && s.next_request_id < u32::MAX && previous(
                s,
                inp,
                parent,
            ).len() > 2 ==> r == Err::<Option<PublishRequest>, _>(CollationBreach::PreviousBlocks)
            &&& r is Err ==> t == s
        }),
{
    let blocks = previous(s, inp, parent);
    lemma_previous(s, inp, parent);
    lemma_max_seqno(blocks);
    let i = choose|i: int| 0 <= i < blocks.len() && (#[trigger] blocks[i]).seq_no == max_seqno(
        blocks,
    );
    assert(max_seqno(blocks) < u32::MAX);
    let prev = s.prev_blocks(inp, parent)->Some_0;
    assert(s.parent_splits(inp, prev) == (if blocks.len() == 1 {
        inp.before_split_flag(blocks[0])
    } else {
        None
    }));
    if slot.0 >= inp.first_non_progressed.0 && s.next_request_id < u32::MAX && blocks.len() <= 2 {
        lemma_asks(s, inp, slot, parent, true, None);
    }
}

/// An answer of the collator is taken for what it is: a block as the result of the
/// collation, which is published as such; no block as its failure. The answer to a
/// request that was cancelled does no more than end the tracking of its slot.
pub proof fn answers_are_taken_in(
    s: CollationView,
    inp: CollationInputs,
    slot: SlotIndex,
    request_id: u32,
    block: CollatedBlock,
    answer: Option<CollatedBlock>,
)
    ensures
        s.called_back(inp, slot, request_id, false, Some(block)) == step(
            s,
            inp,
            CollationEvent::Complete { slot, request_id, result: CollationResult::Block(block) },
        ),
        s.called_back(inp, slot, request_id, false, None) == step(
            s,
            inp,
            CollationEvent::Fail { slot, request_id },
        ),
        ({
            let (t, r) = s.called_back(inp, slot, request_id, true, answer);
            &&& r == Ok::<Option<PublishRequest>, CollationBreach>(None)
            &&& t.actions == s.actions.push(CollationAction::Forget(slot, ForgetReason::Cancelled))
            &&& t == (CollationView { actions: t.actions, ..s })
        }),
{
}

/// A candidate is offered for publication exactly if its slot lies in the current window
/// and it is not empty without a parent, and then as it is; one of another window makes
/// the pipeline forget its head, and one without a parent changes nothing.
pub proof fn candidates_of_the_window_are_offered(
    s: CollationView,
    inp: CollationInputs,
    slot: SlotIndex,
    parent: Option<CandidateParentInfo>,
    result: CollationResult,
    funnel_slot: Option<SlotIndex>,
    next: Option<SlotIndex>,
)
    ensures
        ({
            let (t, r) = s.offered(inp, slot, parent, result, funnel_slot, next);
            let here = inp.desc.window(slot) == inp.window;
            &&& r is Some <==> here && (result is Block || parent is Some)
            &&& r matches Some(q) ==> q.slot == slot && q.parent == parent && q.result == result
                && q.funnel_slot == funnel_slot && q.next == next
            &&& here ==> t == s
            &&& !here ==> t.head is None && t.precollated == s.precollated && t.active == s.active
                && t.actions == s.actions
        }),
{
}

/// Once a candidate is out, or could not be built, the pipeline goes on with the slot that
/// the request names: building it and then going on is the same as going on after a
/// request that names none.
pub proof fn next_slots_follow_built_candidates(
    s: CollationView,
    inp: CollationInputs,
    request: PublishRequest,
    desc: Option<GeneratedBlockDesc>,
    next: SlotIndex,
)
    requires
        request.next == Some(next),
    ensures
        ({
            let alone = PublishRequest { next: None, ..request };
            let t = step(s, inp, CollationEvent::Built { request: alone, desc }).0;
            step(s, inp, CollationEvent::Built { request, desc }) == step(
                t,
                inp,
                CollationEvent::Precollate { slot: next },
            )
        }),
{
}

/// A new collation has the time of its slots: taking in messages is counted from when the
/// collator is due, and ends in a masterchain a block's time after the block may be
/// generated, elsewhere at once; and the collation is given up at the end of the window, a
/// block's time for each slot that is left.
pub proof fn collations_have_the_time_of_their_window(
    s: CollationView,
    inp: CollationInputs,
    slot: SlotIndex,
    parent: Option<CandidateParentInfo>,
)
    requires
        s.active is None,
        can_ask(s, inp, parent),
        slot.0 >= inp.first_non_progressed.0,
        inp.desc.window_len() > 0,
        ({
            let left = inp.desc.window_len() as int - slot.0 as int % inp.desc.window_len() as int;
            let rate = inp.opts.target_rate.nanos;
            &&& rate * left <= TIME_SPAN_MAX
            &&& rate <= rate * left
            &&& s.timing(inp, parent).min_gen_time.nanos + rate * left <= TIME_POINT_MAX
            &&& 0 < left <= u32::MAX
        }),
    ensures
        ({
            let g = s.attempted(inp, slot, parent, true, None).0.actions.last()->Generate_0;
            let left = inp.desc.window_len() as int - slot.0 as int % inp.desc.window_len() as int;
            let rate = inp.opts.target_rate.nanos;
            let timing = s.timing(inp, parent);
            &&& g.deadlines.budget_anchor == timing.dispatch_time
            &&& g.deadlines.hard_deadline.nanos == timing.min_gen_time.nanos + rate * left
            &&& inp.desc.shard_ident().masterchain() ==> g.deadlines.soft_deadline.nanos
                == timing.min_gen_time.nanos + rate
            &&& !inp.desc.shard_ident().masterchain() ==> g.deadlines.soft_deadline
                == timing.min_gen_time
            &&& g.min_gen_time == timing.min_gen_time
        }),
{
    lemma_asks(s, inp, slot, parent, true, None);
}

} // verus!
