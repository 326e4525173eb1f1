//! Laws of candidate reception, repair and queries.

use vstd::prelude::*;

use crate::block::{CandidateHashInput, RawCandidateId, SlotIndex, ValidatorIndex};
use crate::candidate::{
    candidate_of, hash_input_of, CandidateBlockView, CandidateDataView, CandidateError,
    WireCandidateId,
};
use crate::candidate_book::{ancestor, BookView, ReceivedView, MAX_CHAIN_DEPTH};
use crate::candidate_controller::{
    after_ingress, after_request, after_resolver, delayed_decision, ingress_counters,
    ingress_missed, ingress_outcome, ingress_verdict, query_answer, rebuilt, request_decision,
    resolver_chain, resolver_ids, resolver_wants, wanted_ids, CandidateAnswer,
    CandidateControllerView, IngressChecks, IngressContext, IngressCounter, IngressOutcome,
    IngressVerdict, MissReason, RebuildError, RepairContext, RequestDecision, StoredCandidateInfo,
    CANDIDATE_REQUEST_RETRY_INTERVAL,
};
use crate::session_description::SessionDescription;
use crate::time::{TimePoint, TimeSpan, TIME_POINT_MAX, TIME_SPAN_MAX};

verus! {

/// The slot that a travelling candidate names.
pub open spec fn slot_claimed(tl: CandidateDataView) -> int {
    match tl {
        CandidateDataView::Block { slot, .. } | CandidateDataView::Empty { slot, .. } => slot
            as int,
    }
}

/// The parent that a travelling candidate names, if it names one.
pub open spec fn parent_claimed(tl: CandidateDataView) -> Option<WireCandidateId> {
    match tl {
        CandidateDataView::Block { parent, .. } => parent,
        CandidateDataView::Empty { parent, .. } => Some(parent),
    }
}

/// Whether `id` is the candidate that `named` names on the wire.
pub open spec fn names(named: Option<WireCandidateId>, id: Option<RawCandidateId>) -> bool {
    match (named, id) {
        (Some(n), Some(i)) => n.slot == i.slot.0 && n.hash == i.hash,
        (None, None) => true,
        _ => false,
    }
}

/// Identifier of a candidate that arrived.
pub open spec fn arrived_id(tl: CandidateDataView, checks: IngressChecks) -> RawCandidateId {
    RawCandidateId { slot: SlotIndex(slot_claimed(tl) as u32), hash: checks.hash }
}

/// After a candidate was stored, the entry under its identifier says what the
/// candidate travelled with: the slot, the parent, none only if the candidate has
/// none, and the block, for ordinary and empty candidates alike. It names the
/// slot's leader as its source, and the time of arrival. All other entries stay
/// as they were, and the candidate no longer counts as asked for.
pub proof fn stored_candidates_keep_what_travelled(
    s: CandidateControllerView,
    sender: ValidatorIndex,
    tl: CandidateDataView,
    broadcast: bool,
    checks: IngressChecks,
    ctx: IngressContext,
    desc: SessionDescription,
)
    requires
        ingress_verdict(s, sender, tl, broadcast, checks, ctx, desc) is Stored,
    ensures
        ({
            let id = arrived_id(tl, checks);
            let t = after_ingress(s, IngressVerdict::Stored, tl, broadcast, checks, ctx, desc);
            let entry = t.book.received[id];
            &&& id.slot.0 == slot_claimed(tl)
            &&& t.book.received.dom() == s.book.received.dom().insert(id)
            &&& entry.slot.0 == slot_claimed(tl)
            &&& names(parent_claimed(tl), entry.parent_id)
            &&& entry.candidate_hash_data_bytes == checks.hash_data@
            &&& entry.source_idx == desc.leader(id.slot)
            &&& entry.receive_time == ctx.now
            &&& entry.root_hash == entry.block_id.root_hash
            &&& entry.file_hash == entry.block_id.file_hash
            &&& entry.is_empty <==> tl is Empty
            &&& tl matches CandidateDataView::Empty { block, .. } ==> {
                &&& entry.block_id == block
                &&& entry.data.len() == 0 && entry.collated_data.len() == 0
                &&& entry.gen_utime_ms is None && entry.before_split is None
            }
            &&& tl is Block ==> {
                &&& checks.info is Present
                &&& entry.block_id == checks.info->Present_0.block_id
                &&& entry.data == checks.info->Present_0.data@
                &&& entry.collated_data == checks.info->Present_0.collated_data@
                &&& entry.gen_utime_ms == checks.gen_utime_ms
                &&& entry.before_split == checks.before_split
            }
            &&& forall|other: RawCandidateId| #[trigger]
                s.book.received.dom().contains(other) && other != id ==> t.book.received[other]
                    == s.book.received[other]
            &&& checks.serialized matches Some(bytes) ==> t.book.cached.dom().contains(id)
                && t.book.cached[id] == bytes@
            &&& !t.requested.dom().contains(id)
            &&& forall|other: RawCandidateId| #[trigger]
                s.requested.dom().contains(other) && other != id ==> t.requested.dom().contains(
                    other,
                ) && t.requested[other] == s.requested[other]
            &&& broadcast ==> t.book.seen.dom().contains(id.slot) && t.book.seen[id.slot] == id
            &&& !broadcast ==> t.book.seen == s.book.seen
        }),
{
    let id = arrived_id(tl, checks);
    let t = after_ingress(s, IngressVerdict::Stored, tl, broadcast, checks, ctx, desc);
    assert(t.book.received.dom() =~= s.book.received.dom().insert(id));
}

/// Whether a travelling candidate can be read: it has a block that could be
/// decoded, or re-signs the block of its parent.
pub open spec fn readable(tl: CandidateDataView, checks: IngressChecks) -> bool {
    match tl {
        CandidateDataView::Block { candidate, .. } => candidate.len() > 0 && checks.info is Present,
        CandidateDataView::Empty { .. } => true,
    }
}

/// A candidate gets in exactly if its slot and its parent's are not negative, its
/// slot is not too far ahead, a validator of the session sent it, it can be read
/// and the slot's leader signed it; and, if it was broadcast, its slot is not
/// below the first one that is not final and no other candidate was broadcast in
/// it before. Of the candidates that get in, those that are there themselves, or
/// unknown to the book but known to validation, are known; all others are stored.
/// A candidate that does not get in is dropped for a reason that it gives.
pub proof fn good_candidates_get_in(
    s: CandidateControllerView,
    sender: ValidatorIndex,
    tl: CandidateDataView,
    broadcast: bool,
    checks: IngressChecks,
    ctx: IngressContext,
    desc: SessionDescription,
)
    ensures
        ({
            let verdict = ingress_verdict(s, sender, tl, broadcast, checks, ctx, desc);
            let id = arrived_id(tl, checks);
            let old_slot = broadcast && slot_claimed(tl) < ctx.first_non_finalized_slot.0;
            let second = broadcast && s.book.seen.dom().contains(id.slot) && s.book.seen[id.slot]
                != id;
            let known = (s.book.received.dom().contains(id)
                && s.book.received[id].candidate_hash_data_bytes.len() > 0) || (
            !s.book.received.dom().contains(id) && ctx.known_in_validation);
            let negative = slot_claimed(tl) < 0 || (parent_claimed(tl) is Some && parent_claimed(
                tl,
            )->Some_0.slot < 0);
            &&& verdict is Stored || verdict is AlreadyKnown <==> {
                &&& !negative
                &&& !ctx.too_far_ahead
                &&& (sender.0 as int) < desc.weights().len()
                &&& !old_slot
                &&& readable(tl, checks)
                &&& checks.signature_valid
                &&& !second
            }
            &&& verdict is Stored ==> !known
            &&& verdict is AlreadyKnown ==> known
            &&& match verdict {
                IngressVerdict::NegativeSlot => negative,
                IngressVerdict::TooFarAhead => ctx.too_far_ahead,
                IngressVerdict::UnknownSender => sender.0 as int >= desc.weights().len(),
                IngressVerdict::OldSlot => old_slot,
                IngressVerdict::Malformed(CandidateError::InvalidSignature) =>
                    !checks.signature_valid,
                IngressVerdict::Malformed(CandidateError::EmptyCandidateBytes) =>
                    tl matches CandidateDataView::Block { candidate, .. } && candidate.len() == 0,
                IngressVerdict::Malformed(CandidateError::UnreadableBlock) => tl is Block
                    && checks.info is Unreadable,
                IngressVerdict::Malformed(CandidateError::MissingBlockInfo) => tl is Block
                    && checks.info is Absent,
                IngressVerdict::Malformed(_) => false,
                IngressVerdict::ConflictingBroadcast(first) => second && s.book.seen[id.slot]
                    == first,
                _ => true,
            }
        }),
{
}

/// What a dropped or known candidate leaves behind: nothing, except that the first
/// broadcast in a slot is remembered.
pub proof fn only_stored_candidates_enter_the_book(
    s: CandidateControllerView,
    sender: ValidatorIndex,
    tl: CandidateDataView,
    broadcast: bool,
    checks: IngressChecks,
    ctx: IngressContext,
    desc: SessionDescription,
)
    ensures
        ({
            let verdict = ingress_verdict(s, sender, tl, broadcast, checks, ctx, desc);
            let t = after_ingress(s, verdict, tl, broadcast, checks, ctx, desc);
            let id = arrived_id(tl, checks);
            &&& !(verdict is Stored) ==> {
                &&& t.book.received == s.book.received
                &&& t.book.cached == s.book.cached
                &&& t.requested == s.requested
            }
            &&& verdict is AlreadyKnown && broadcast ==> t.book.seen.dom().contains(id.slot)
                && t.book.seen[id.slot] == id
            &&& forall|slot: SlotIndex| #[trigger]
                s.book.seen.dom().contains(slot) ==> t.book.seen.dom().contains(slot)
                    && t.book.seen[slot] == s.book.seen[slot]
            &&& forall|slot: SlotIndex| #[trigger]
                t.book.seen.dom().contains(slot) ==> s.book.seen.dom().contains(slot) || (broadcast
                    && slot == id.slot && (verdict is Stored || verdict is AlreadyKnown))
        }),
{
}

/// Every candidate that is looked at is counted as received from its sender, and
/// nothing else is counted without its cause: a broadcast of another validator
/// than the leader as relayed, and each dropped broadcast once, by its reason.
pub proof fn arrivals_are_counted(
    verdict: IngressVerdict,
    sender: ValidatorIndex,
    leader: ValidatorIndex,
    broadcast: bool,
)
    ensures
        ({
            let counters = ingress_counters(verdict, sender, leader, broadcast);
            &&& verdict is NegativeSlot <==> counters.len() == 0
            &&& !(verdict is NegativeSlot) ==> counters[0] == (IngressCounter::Received {
                sender,
                broadcast,
            })
            &&& forall|i: int|
                0 < i < counters.len() ==> match #[trigger] counters[i] {
                    IngressCounter::Received { .. } => false,
                    IngressCounter::FutureSlotDrop => broadcast && verdict is TooFarAhead,
                    IngressCounter::RelayedBroadcast => broadcast && sender != leader,
                    IngressCounter::OldSlotDrop => verdict is OldSlot,
                    IngressCounter::ConflictingSlotDrop => verdict is ConflictingBroadcast,
                }
            &&& broadcast && verdict is TooFarAhead ==> counters.last()
                == IngressCounter::FutureSlotDrop
            &&& verdict is OldSlot ==> counters.last() == IngressCounter::OldSlotDrop
            &&& verdict is ConflictingBroadcast ==> counters.last()
                == IngressCounter::ConflictingSlotDrop
            &&& broadcast && sender != leader && !(verdict is NegativeSlot)
                && !(verdict is TooFarAhead) && !(verdict is UnknownSender) ==> counters.len() > 1
                && counters[1] == IngressCounter::RelayedBroadcast
            &&& counters.no_duplicates()
        }),
{
}

/// It is noted exactly of the local validator's own candidates that they do not
/// get validated, with their slot and the reason: a slot too far ahead or final,
/// a malformed candidate, or another one broadcast first.
pub proof fn own_misses_are_noted(
    verdict: IngressVerdict,
    local: bool,
    slot: SlotIndex,
    hash: crate::chain::UInt256,
    first_non_finalized: SlotIndex,
)
    ensures
        ({
            let note = ingress_missed(verdict, local, slot, hash, first_non_finalized);
            &&& note is Some <==> local && (verdict is TooFarAhead || verdict is OldSlot
                || verdict is Malformed || verdict is ConflictingBroadcast)
            &&& note matches Some(n) ==> {
                &&& n.slot == slot
                &&& n.id is Some <==> verdict is ConflictingBroadcast
                &&& n.id matches Some(id) ==> id == (RawCandidateId { slot, hash })
                &&& verdict is TooFarAhead <==> n.reason is TooFarAhead
                &&& verdict is OldSlot <==> n.reason == MissReason::OldSlot(first_non_finalized)
                &&& verdict matches IngressVerdict::Malformed(e) ==> n.reason
                    == MissReason::Malformed(e)
                &&& verdict matches IngressVerdict::ConflictingBroadcast(first) ==> n.reason
                    == MissReason::ConflictingSlot(first)
            }
        }),
{
}

/// The caller learns of a stored candidate what travelled: its identifier, its
/// parent, its block and its signature, the certificate that came with it, and
/// what is to be written; and the validator layer is told of every block that is
/// not the parent's, as its maker signed it.
pub proof fn stored_candidates_are_handed_on(
    s: CandidateControllerView,
    sender: ValidatorIndex,
    tl: CandidateDataView,
    broadcast: bool,
    notar: Option<Vec<u8>>,
    local: bool,
    checks: IngressChecks,
    ctx: IngressContext,
    desc: SessionDescription,
    outcome: IngressOutcome,
)
    requires
        ({
            let verdict = ingress_verdict(s, sender, tl, broadcast, checks, ctx, desc);
            ingress_outcome(outcome, verdict, tl, notar, local, checks, ctx, desc)
        }),
    ensures
        ({
            let verdict = ingress_verdict(s, sender, tl, broadcast, checks, ctx, desc);
            let id = arrived_id(tl, checks);
            &&& outcome is Stored <==> verdict is Stored
            &&& outcome is AlreadyKnown <==> verdict is AlreadyKnown
            &&& outcome matches IngressOutcome::AlreadyKnown { slot, hash, notar_cert } ==> {
                &&& slot == id.slot && hash == id.hash
                &&& notar_cert == notar
            }
            &&& outcome matches IngressOutcome::Stored {
                raw_candidate,
                slot,
                hash,
                leader_idx,
                receive_time,
                before_split,
                observed,
                notar_cert,
                payload,
                info,
            } ==> {
                &&& raw_candidate@.id == id && slot == id.slot && hash == id.hash
                &&& names(parent_claimed(tl), raw_candidate@.parent_id)
                &&& raw_candidate@.block is Empty <==> tl is Empty
                &&& leader_idx == desc.leader(id.slot) && receive_time == ctx.now
                &&& notar_cert == notar
                &&& payload is Some <==> checks.serialized is Some
                &&& payload matches Some(bytes) ==> bytes@ == checks.serialized->Some_0@
                &&& info.slot == id.slot && info.hash == id.hash && info.leader_idx == leader_idx
                &&& info.hash_data@ == checks.hash_data@
                &&& tl matches CandidateDataView::Block { signature, .. } ==> info.signature@
                    == signature
                &&& tl matches CandidateDataView::Empty { signature, .. } ==> info.signature@
                    == signature
                &&& observed is Some <==> tl is Block
                &&& observed matches Some(o) ==> {
                    &&& o.block_id == checks.info->Present_0.block_id
                    &&& o.data@ == checks.info->Present_0.data@
                    &&& o.collated_data@ == checks.info->Present_0.collated_data@
                    &&& o.body_present
                    &&& o.parent_ready == ctx.notarized
                    &&& o.local_collated == local
                }
                &&& before_split is Some <==> tl is Block && checks.before_split is Some
                &&& before_split matches Some((block, flag)) ==> block
                    == checks.info->Present_0.block_id && checks.before_split == Some(flag)
            }
        }),
{
}

/// A candidate is asked for exactly if its slot is not skipped, it was not asked
/// for a short while ago, and it or its notarization certificate is missing: at
/// once if there is no delay, else a delay from now. Each request blocks others
/// for the same candidate until [`CANDIDATE_REQUEST_RETRY_INTERVAL`] after it,
/// and touches no other candidate. A skipped slot's candidate is forgotten.
pub proof fn missing_candidates_are_asked_for(
    s: CandidateControllerView,
    id: RawCandidateId,
    delay: TimeSpan,
    ctx: RepairContext,
)
    requires
        delay.nanos <= TIME_SPAN_MAX,
        ctx.now.nanos + delay.nanos + CANDIDATE_REQUEST_RETRY_INTERVAL <= TIME_POINT_MAX,
    ensures
        ({
            let decision = request_decision(s, id, delay, ctx);
            let t = after_request(s, id, decision, ctx.now);
            let complete = ctx.notarized && s.book.received.dom().contains(id)
                && s.book.received[id].candidate_hash_data_bytes.len() > 0;
            let asked = s.requested.dom().contains(id) && ctx.now.nanos < s.requested[id].nanos;
            &&& decision is RequestNow || decision is RequestAt <==> !ctx.skip_certified && !asked
                && !complete
            &&& decision is RequestNow ==> delay.nanos == 0
            &&& decision matches RequestDecision::RequestAt(at) ==> {
                &&& delay.nanos > 0
                &&& at.nanos == ctx.now.nanos + delay.nanos
            }
            &&& decision is RequestNow || decision is RequestAt ==> {
                &&& t.requested.dom().contains(id)
                &&& t.requested[id].nanos == ctx.now.nanos + delay.nanos
                    + CANDIDATE_REQUEST_RETRY_INTERVAL
            }
            &&& decision is Skipped <==> ctx.skip_certified
            &&& decision is Skipped ==> !t.requested.dom().contains(id)
            &&& decision is Throttled ==> asked && t == s
            &&& decision is Complete ==> complete && t == s
            &&& t.book == s.book
            &&& forall|other: RawCandidateId|
                #![trigger t.requested.dom().contains(other)]
                other != id ==> {
                    &&& t.requested.dom().contains(other) <==> s.requested.dom().contains(other)
                    &&& s.requested.dom().contains(other) ==> t.requested[other]
                        == s.requested[other]
                }
        }),
{
}

/// A scheduled look asks for the candidate exactly if the request was not
/// cancelled, the slot is not skipped, and the candidate or its certificate is
/// still missing.
pub proof fn scheduled_looks_ask_for_what_is_missing(
    s: CandidateControllerView,
    id: RawCandidateId,
    ctx: RepairContext,
)
    ensures
        ({
            let decision = delayed_decision(s, id, ctx);
            let complete = ctx.notarized && s.book.received.dom().contains(id)
                && s.book.received[id].candidate_hash_data_bytes.len() > 0;
            &&& decision is RequestNow <==> s.requested.dom().contains(id) && !ctx.skip_certified
                && !complete
            &&& decision is Cancelled <==> !s.requested.dom().contains(id)
            &&& decision is Skipped ==> ctx.skip_certified
            &&& decision is Complete ==> complete
        }),
{
}

/// Whether a candidate is to be asked for on behalf of the validator layer: its
/// body is missing, and it was not asked for a short while ago.
pub open spec fn is_needed(s: CandidateControllerView, id: RawCandidateId, now: TimePoint) -> bool {
    &&& !(s.book.received.dom().contains(id)
        && s.book.received[id].candidate_hash_data_bytes.len() > 0)
    &&& !(s.requested.dom().contains(id) && now.nanos < s.requested[id].nanos)
}

/// Whether `x` is one of `start` and its first `n` ancestors, from the `from`th on.
pub open spec fn on_chain(
    book: BookView,
    start: RawCandidateId,
    x: RawCandidateId,
    from: nat,
    n: nat,
) -> bool {
    exists|k: nat| from <= k <= n && #[trigger] ancestor(book.received, start, k) == Some(x)
}

/// The state `t` is `s` once the candidates `asked` were asked for.
pub open spec fn asked_from(
    s: CandidateControllerView,
    t: CandidateControllerView,
    asked: Seq<RawCandidateId>,
    now: TimePoint,
) -> bool {
    &&& t.book == s.book
    &&& forall|x: RawCandidateId|
        #![trigger t.requested.dom().contains(x)]
        {
            &&& asked.contains(x) ==> t.requested.dom().contains(x) && t.requested[x].nanos
                == now.nanos + CANDIDATE_REQUEST_RETRY_INTERVAL
            &&& !asked.contains(x) ==> (t.requested.dom().contains(x)
                <==> s.requested.dom().contains(x))
            &&& !asked.contains(x) && s.requested.dom().contains(x) ==> t.requested[x]
                == s.requested[x]
        }
}

proof fn lemma_ask_one(
    s: CandidateControllerView,
    t: CandidateControllerView,
    asked: Seq<RawCandidateId>,
    x: RawCandidateId,
    now: TimePoint,
)
    requires
        asked_from(s, t, asked, now),
        now.nanos + CANDIDATE_REQUEST_RETRY_INTERVAL <= TIME_POINT_MAX,
    ensures
        asked_from(s, after_resolver(t, x, now), asked + resolver_ids(t, x, now), now),
        resolver_ids(t, x, now).contains(x) <==> is_needed(s, x, now) && !asked.contains(x),
        forall|y: RawCandidateId| #[trigger] resolver_ids(t, x, now).contains(y) ==> y == x,
{
    let ids = resolver_ids(t, x, now);
    let u = after_resolver(t, x, now);
    assert(t.requested.dom().contains(x) == t.requested.dom().contains(x));
    if resolver_wants(t, x, now) {
        assert(ids[0] == x);
        assert(ids.contains(x));
    }
    assert forall|y: RawCandidateId| (asked + ids).contains(y) <==> asked.contains(y)
        || ids.contains(y) by {
        if asked.contains(y) {
            let i = choose|i: int| 0 <= i < asked.len() && asked[i] == y;
            assert((asked + ids)[i] == y);
        }
        if ids.contains(y) {
            let i = choose|i: int| 0 <= i < ids.len() && ids[i] == y;
            assert((asked + ids)[asked.len() + i] == y);
        }
    }
    assert forall|y: RawCandidateId|
        #![trigger u.requested.dom().contains(y)]
        {
            &&& (asked + ids).contains(y) ==> u.requested.dom().contains(y)
                && u.requested[y].nanos == now.nanos + CANDIDATE_REQUEST_RETRY_INTERVAL
            &&& !(asked + ids).contains(y) ==> (u.requested.dom().contains(y)
                <==> s.requested.dom().contains(y))
            &&& !(asked + ids).contains(y) && s.requested.dom().contains(y) ==> u.requested[y]
                == s.requested[y]
        } by {
        assert(t.requested.dom().contains(y) == t.requested.dom().contains(y));
    }
}

proof fn lemma_chain_asked(
    s: CandidateControllerView,
    t: CandidateControllerView,
    start: RawCandidateId,
    current: RawCandidateId,
    asked: Seq<RawCandidateId>,
    now: TimePoint,
    k: nat,
    fuel: nat,
)
    requires
        asked_from(s, t, asked, now),
        now.nanos + CANDIDATE_REQUEST_RETRY_INTERVAL <= TIME_POINT_MAX,
        ancestor(s.book.received, start, k) == Some(current),
    ensures
        ({
            let r = resolver_chain(t, current, now, fuel);
            &&& asked_from(s, r.0, asked + r.1, now)
            &&& forall|x: RawCandidateId| #[trigger]
                r.1.contains(x) ==> is_needed(s, x, now) && on_chain(
                    s.book,
                    start,
                    x,
                    k + 1,
                    k + fuel,
                )
            &&& forall|x: RawCandidateId|
                is_needed(s, x, now) && #[trigger] on_chain(s.book, start, x, k + 1, k + fuel) ==> (
                asked + r.1).contains(x)
        }),
    decreases fuel,
{
    let r = resolver_chain(t, current, now, fuel);
    let received = s.book.received;
    let stops = fuel == 0 || !received.dom().contains(current) || received[current].parent_id
        is None;
    if stops {
        assert(asked + r.1 =~= asked);
        if fuel > 0 {
            assert(ancestor(received, start, k + 1) is None);
            lemma_no_ancestor_past(received, start, k + 1);
        }
    } else {
        let parent = received[current].parent_id->Some_0;
        let ids = resolver_ids(t, parent, now);
        let next = after_resolver(t, parent, now);
        assert(ancestor(received, start, k + 1) == Some(parent));
        lemma_ask_one(s, t, asked, parent, now);
        let tail = resolver_chain(next, parent, now, (fuel - 1) as nat);
        if received.dom().contains(parent) {
            lemma_chain_asked(
                s,
                next,
                start,
                parent,
                asked + ids,
                now,
                k + 1,
                (fuel - 1) as nat,
            );
            assert(asked + r.1 =~= asked + ids + tail.1);
        } else {
            assert(ancestor(received, start, k + 2) is None);
            lemma_no_ancestor_past(received, start, k + 2);
        }
        assert forall|x: RawCandidateId| #[trigger] r.1.contains(x) implies is_needed(s, x, now)
            && on_chain(s.book, start, x, k + 1, k + fuel) by {
            let i = choose|i: int| 0 <= i < r.1.len() && r.1[i] == x;
            if i < ids.len() {
                assert(ids[i] == x);
                assert(ids.contains(x));
                assert(on_chain(s.book, start, x, k + 1, k + fuel));
            } else {
                assert(tail.1[i - ids.len()] == x);
                assert(tail.1.contains(x));
                let j = choose|j: nat|
                    k + 2 <= j <= k + fuel && #[trigger] ancestor(received, start, j) == Some(x);
                assert(on_chain(s.book, start, x, k + 1, k + fuel));
            }
        }
        assert forall|x: RawCandidateId|
            is_needed(s, x, now) && #[trigger] on_chain(
                s.book,
                start,
                x,
                k + 1,
                k + fuel,
            ) implies (asked + r.1).contains(x) by {
            let j = choose|j: nat|
                k + 1 <= j <= k + fuel && #[trigger] ancestor(received, start, j) == Some(x);
            if j == k + 1 {
                assert(x == parent);
                if asked.contains(x) {
                    let i = choose|i: int| 0 <= i < asked.len() && asked[i] == x;
                    assert((asked + r.1)[i] == x);
                } else {
                    assert(ids.contains(x));
                    assert(ids[0] == x);
                    assert((asked + r.1)[asked.len() as int] == x);
                }
            } else {
                assert(received.dom().contains(parent));
                assert(on_chain(s.book, start, x, k + 1 + 1, k + 1 + (fuel - 1) as nat)) by {
                    assert(k + 2 <= j && ancestor(received, start, j) == Some(x));
                }
                assert((asked + ids + tail.1).contains(x));
            }
        }
    }
}

proof fn lemma_no_ancestor_past(
    received: Map<RawCandidateId, ReceivedView>,
    start: RawCandidateId,
    k: nat,
)
    requires
        ancestor(received, start, k) is None,
    ensures
        forall|j: nat| j >= k ==> #[trigger] ancestor(received, start, j) is None,
{
    assert forall|j: nat| j >= k implies #[trigger] ancestor(received, start, j) is None by {
        lemma_none_from(received, start, k, j);
    }
}

proof fn lemma_none_from(
    received: Map<RawCandidateId, ReceivedView>,
    start: RawCandidateId,
    k: nat,
    j: nat,
)
    requires
        ancestor(received, start, k) is None,
        j >= k,
    ensures
        ancestor(received, start, j) is None,
    decreases j,
{
    if j > k {
        lemma_none_from(received, start, k, (j - 1) as nat);
    }
}

/// On behalf of the validator layer a candidate is asked for, and if wanted each of
/// its first [`MAX_CHAIN_DEPTH`] ancestors that the book knows of, exactly if its
/// body is missing and it was not asked for a short while ago.
pub proof fn needed_chains_are_asked_for(
    s: CandidateControllerView,
    id: RawCandidateId,
    include_parent_chain: bool,
    now: TimePoint,
    x: RawCandidateId,
)
    requires
        now.nanos + CANDIDATE_REQUEST_RETRY_INTERVAL <= TIME_POINT_MAX,
    ensures
        wanted_ids(s, id, include_parent_chain, now).contains(x) <==> is_needed(s, x, now) && (x
            == id || (include_parent_chain && on_chain(
            s.book,
            id,
            x,
            1,
            MAX_CHAIN_DEPTH as nat,
        ))),
        ({
            let first = after_resolver(s, id, now);
            let t = if include_parent_chain {
                resolver_chain(first, id, now, MAX_CHAIN_DEPTH as nat).0
            } else {
                first
            };
            asked_from(s, t, wanted_ids(s, id, include_parent_chain, now), now)
        }),
{
    let none = Seq::<RawCandidateId>::empty();
    let ids = resolver_ids(s, id, now);
    let first = after_resolver(s, id, now);
    assert(asked_from(s, s, none, now));
    lemma_ask_one(s, s, none, id, now);
    assert(none + ids =~= ids);
    assert(!none.contains(id));
    if !include_parent_chain {
        assert(wanted_ids(s, id, include_parent_chain, now) == ids);
    } else {
        let r = resolver_chain(first, id, now, MAX_CHAIN_DEPTH as nat);
        lemma_chain_asked(s, first, id, id, ids, now, 0, MAX_CHAIN_DEPTH as nat);
        assert(wanted_ids(s, id, include_parent_chain, now) == ids + r.1);
        if is_needed(s, x, now) && on_chain(s.book, id, x, 1, MAX_CHAIN_DEPTH as nat) {
            assert(on_chain(s.book, id, x, 0 + 1, 0 + MAX_CHAIN_DEPTH as nat));
        }
        if (ids + r.1).contains(x) {
            let i = choose|i: int| 0 <= i < (ids + r.1).len() && (ids + r.1)[i] == x;
            if i < ids.len() {
                assert(ids.contains(x));
            } else {
                assert(r.1[i - ids.len()] == x);
                assert(r.1.contains(x));
            }
        }
        if is_needed(s, x, now) && x == id {
            assert(ids.contains(x));
            assert((ids + r.1)[0] == x);
        }
    }
}

/// A query is answered with nothing only if no candidate is wanted or none is at
/// hand; bytes that are cached are handed out as they are, failing that the
/// stored ones.
pub proof fn queries_are_answered(
    answer: CandidateAnswer,
    book: BookView,
    id: RawCandidateId,
    want_candidate: bool,
    payload: Option<Vec<u8>>,
    info: Option<StoredCandidateInfo>,
)
    requires
        query_answer(answer, book, id, want_candidate, payload, info),
    ensures
        !want_candidate ==> answer is Nothing,
        want_candidate && book.cached.dom().contains(id) ==> answer is Bytes,
        want_candidate && (payload matches Some(p) && p@.len() > 0) ==> answer is Bytes,
        want_candidate && book.received.dom().contains(id) && (info matches Some(i)
            && i.hash_data is Empty) ==> !(answer is Nothing),
        answer matches CandidateAnswer::Bytes(b) ==> {
            ||| book.cached.dom().contains(id) && b@ == book.cached[id]
            ||| !book.cached.dom().contains(id) && payload is Some && b@ == payload->Some_0@
        },
        answer matches CandidateAnswer::Rebuilt(c) ==> {
            &&& c@ is Empty
            &&& info is Some && c@->Empty_signature == info->Some_0.signature@
            &&& book.received.dom().contains(id) && c@->Empty_block == book.received[id].block_id
            &&& id.slot.0 <= i32::MAX ==> c@->Empty_slot == id.slot.0
            &&& info->Some_0.hash_data matches CandidateHashInput::Empty { parent, .. } && (
            parent.slot.0 <= i32::MAX ==> names(Some(c@->Empty_parent), Some(parent)))
        },
{
}

/// An empty candidate that was stored is rebuilt from its metadata as it travelled.
pub proof fn stored_empties_are_rebuilt(
    s: CandidateControllerView,
    sender: ValidatorIndex,
    tl: CandidateDataView,
    broadcast: bool,
    checks: IngressChecks,
    ctx: IngressContext,
    desc: SessionDescription,
    info: StoredCandidateInfo,
)
    requires
        ingress_verdict(s, sender, tl, broadcast, checks, ctx, desc) is Stored,
        tl is Empty,
        info.signature@ == tl->Empty_signature,
        info.hash_data matches CandidateHashInput::Empty { block, parent } && block
            == tl->Empty_block && names(Some(tl->Empty_parent), Some(parent)),
    ensures
        ({
            let t = after_ingress(s, IngressVerdict::Stored, tl, broadcast, checks, ctx, desc);
            rebuilt(t.book, arrived_id(tl, checks), info) == Ok::<_, RebuildError>(tl)
        }),
{
}

/// A travelling candidate is accepted exactly if its slot and its parent's are not
/// negative, it can be read, and the signature verifies; and then as what it travelled
/// as. Each error names what is wrong.
pub proof fn good_candidates_are_accepted(
    tl: CandidateDataView,
    checks: IngressChecks,
    leader: ValidatorIndex,
)
    ensures
        ({
            let r = candidate_of(
                tl,
                checks.info,
                leader,
                checks.leader_key,
                checks.hash,
                checks.signature_valid,
            );
            let parent = parent_claimed(tl);
            &&& r is Ok <==> {
                &&& slot_claimed(tl) >= 0
                &&& parent is Some ==> parent->Some_0.slot >= 0
                &&& readable(tl, checks)
                &&& checks.signature_valid
            }
            &&& r matches Ok(raw) ==> {
                &&& raw.id.slot.0 == slot_claimed(tl)
                &&& raw.id.hash == checks.hash
                &&& names(parent, raw.parent_id)
                &&& raw.leader == leader
                &&& match tl {
                    CandidateDataView::Empty { block, signature, .. } => raw.block
                        == CandidateBlockView::Empty(block) && raw.signature == signature,
                    CandidateDataView::Block { signature, .. } => {
                        &&& raw.signature == signature
                        &&& raw.block matches CandidateBlockView::NonEmpty(b) && {
                            &&& b.id == checks.info->Present_0.block_id
                            &&& b.data == checks.info->Present_0.data@
                            &&& b.collated_data == checks.info->Present_0.collated_data@
                            &&& b.collated_file_hash == checks.info->Present_0.collated_file_hash
                            &&& b.creator == checks.leader_key
                        }
                    },
                }
            }
            &&& r matches Err(e) ==> match e {
                CandidateError::NegativeParentSlot(n) => n < 0 && parent is Some
                    && parent->Some_0.slot == n,
                CandidateError::NegativeSlot(n) => n < 0 && slot_claimed(tl) == n,
                CandidateError::EmptyCandidateBytes => tl matches CandidateDataView::Block {
                    candidate,
                    ..
                } && candidate.len() == 0,
                CandidateError::UnreadableBlock => tl is Block && checks.info is Unreadable,
                CandidateError::MissingBlockInfo => tl is Block && checks.info is Absent,
                CandidateError::EmptyWithoutParent => false,
                CandidateError::InvalidSignature => !checks.signature_valid,
            }
        }),
{
}

/// What the hash of an identifier is computed from tells candidates apart: if it is
/// the same for two of them, they have the same block and the same parent, and both
/// have a block of their own or neither does.
pub proof fn hash_inputs_tell_candidates_apart(
    block: CandidateBlockView,
    parent: Option<RawCandidateId>,
    other: CandidateBlockView,
    other_parent: Option<RawCandidateId>,
)
    requires
        block is Empty ==> parent is Some,
        other is Empty ==> other_parent is Some,
        hash_input_of(block, parent) == hash_input_of(other, other_parent),
    ensures
        block is Empty <==> other is Empty,
        block.block_id() == other.block_id(),
        parent == other_parent,
        block matches CandidateBlockView::NonEmpty(b) ==> (other matches CandidateBlockView::NonEmpty(
            o,
        ) && b.collated_file_hash == o.collated_file_hash && b.id == o.id),
{
}

/// Once the repairs of a slot are cancelled, a scheduled look at a candidate of that
/// slot finds its request cancelled, and one at a candidate of another slot finds what
/// it would have found; the same holds of forgetting the slots below a given one. The
/// book is not touched by either.
pub proof fn cancelled_repairs_stay_cancelled(
    s: CandidateControllerView,
    slot: SlotIndex,
    id: RawCandidateId,
    ctx: RepairContext,
)
    ensures
        ({
            let t = s.without_repairs(slot);
            let u = s.repairs_from(slot);
            &&& id.slot == slot ==> delayed_decision(t, id, ctx) is Cancelled
            &&& id.slot != slot ==> delayed_decision(t, id, ctx) == delayed_decision(s, id, ctx)
            &&& id.slot.0 < slot.0 ==> delayed_decision(u, id, ctx) is Cancelled
            &&& id.slot.0 >= slot.0 ==> delayed_decision(u, id, ctx) == delayed_decision(s, id, ctx)
            &&& t.book == s.book && u.book == s.book
        }),
{
}

} // verus!
