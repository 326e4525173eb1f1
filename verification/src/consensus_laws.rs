//! Laws of finalization: how far a walk over finalized blocks goes, what it
//! leaves behind there, and which votes and certificates are taken in.

use vstd::prelude::*;

use crate::block::{RawCandidateId, SlotIndex, ValidatorIndex};
use crate::candidate_book::{ancestor, kept, BookView, ReceivedView, MAX_CHAIN_DEPTH};
use crate::certificate::{
    all_sound, certified, fault_at, signers, Certificate, CertificateError, VoteSignature,
    WireSignature,
};
use crate::chain::BlockIdExt;
use crate::consensus_backend::BackendCalls;
use crate::consensus_controller::{
    accepted_with_block, after_applied_top, after_vote, all_deliveries, all_writes, applied_state,
    calls_match, certificate_drop, complete_walks_miss_nothing, deliverable, delivery_log,
    dropped_certificate, emit_verdict, first_notarization, is_handed, is_notarization_report,
    lists_pending, or_zero, retried, settled_ids, to_apply, verified_certificate, vote_drop,
    vote_report, walk, walk_applied, walk_body, walk_emitted, walk_start, walk_step, walked, worked,
    write_log, ArrivedCertificate, CertificateDrop, ConsensusView, Delivery, EmitVerdict,
    FinalizationBreach, FinalizationInputs, FinalizedEntry, NotarizationReport, StoreOutcome,
    VoteContext, VoteDrop, VoteKind, VoteReport, WalkEnd, WalkEnv, WalkReport, WalkState,
};
use crate::database::FinalizedBlockRecord;
use crate::misbehavior::VoteResult;
use crate::order::Ranked;
use crate::session_description::{weight_of, SessionDescription};
use crate::time::{TimePoint, TIME_SPAN_MAX};
use crate::votes::{UnsignedVote, Vote};

verus! {

/// The candidates that a finalization reaches: the finalized one, its parent,
/// that one's parent, and so on.
pub struct FinalChain {
    /// The candidates of the book.
    pub received: Map<RawCandidateId, ReceivedView>,
    /// The finalized candidate.
    pub trigger: RawCandidateId,
    /// Whether the shard is the masterchain.
    pub masterchain: bool,
    /// Seqno that the masterchain registered for the shard.
    pub floor: u32,
}

impl FinalChain {
    /// The candidate `n` steps up from the finalized one.
    pub open spec fn at(self, n: nat) -> Option<RawCandidateId> {
        ancestor(self.received, self.trigger, n)
    }

    /// Whether the book has the candidate `n` steps up.
    pub open spec fn known(self, n: nat) -> bool {
        self.at(n) matches Some(a) && self.received.dom().contains(a)
    }

    /// What the book has of the candidate `n` steps up.
    pub open spec fn entry(self, n: nat) -> ReceivedView {
        self.received[self.at(n)->Some_0]
    }

    /// Whether the finalization certificate stands for the block `n` steps up:
    /// no candidate on the way has a block of its own.
    pub open spec fn under_final(self, n: nat) -> bool {
        forall|k: nat| k < n ==> #[trigger] self.known(k) && self.entry(k).is_empty
    }

    /// Whether the candidate `n` steps up was finalized by others: it needs no
    /// more than to be passed over.
    pub open spec fn behind(self, n: nat) -> bool {
        !self.under_final(n) && (self.masterchain || self.entry(n).block_id.seq_no < self.floor)
    }

    /// Whether nothing is reached past the candidate `n` steps up.
    pub open spec fn ends(self, n: nat) -> bool {
        self.known(n) && (self.entry(n).parent_id is None || self.behind(n))
    }

    /// Whether the candidate `n` steps up is reached.
    pub open spec fn reaches(self, n: nat) -> bool {
        self.at(n) is Some && forall|k: nat| k < n ==> !#[trigger] self.ends(k)
    }

    /// Whether `id` is reached within `n` steps, under the finalization
    /// certificate or not as `is_final` says.
    pub open spec fn holds(self, id: RawCandidateId, is_final: bool, n: nat) -> bool {
        exists|k: nat|
            k < n && #[trigger] self.reaches(k) && self.at(k) == Some(id) && is_final
                == self.under_final(k)
    }

    /// Whether `b` is further up than `a`, within `n` steps.
    pub open spec fn leads_up(self, a: RawCandidateId, b: RawCandidateId, n: nat) -> bool {
        exists|k: nat, l: nat|
            k < l < n && #[trigger] self.at(k) == Some(a) && #[trigger] self.at(l) == Some(b)
    }

    /// Whether the candidate `n` steps up is dealt with in `t`, which came from
    /// `s`: its finalization is applied, and its block, if it has one, counts as
    /// delivered.
    pub open spec fn settled(self, s: ConsensusView, t: ConsensusView, n: nat) -> bool {
        let id = self.at(n)->Some_0;
        let rec = self.entry(n);
        &&& self.known(n)
        &&& !self.behind(n) ==> rec.candidate_hash_data_bytes.len() > 0
        &&& rec.candidate_hash_data_bytes.len() > 0 && !(self.masterchain && self.behind(n))
            ==> t.finalized.contains(id)
        &&& !rec.is_empty ==> t.sent.contains(id)
        &&& !rec.is_empty && !self.behind(n) && (self.masterchain || rec.block_id.seq_no
            >= self.floor) && !s.sent.contains(id) ==> {
            &&& t.sent_seqno.dom().contains(rec.block_id.seq_no)
            &&& t.sent_seqno[rec.block_id.seq_no].block_id == rec.block_id
        }
    }

    /// Whether the candidate `id` had to be asked for: it is reached, and its
    /// body is missing, or else the notarization certificate that its block
    /// needs.
    pub open spec fn lacks(
        self,
        id: RawCandidateId,
        notarized: Set<RawCandidateId>,
        sent: Set<RawCandidateId>,
        n: nat,
    ) -> bool {
        exists|k: nat|
            k < n && #[trigger] self.reaches(k) && self.at(k) == Some(id) && !(self.known(k)
                && self.behind(k)) && {
                ||| !self.known(k)
                ||| self.entry(k).candidate_hash_data_bytes.len() == 0
                ||| {
                    &&& !self.entry(k).is_empty
                    &&& !sent.contains(id)
                    &&& !self.under_final(k)
                    &&& !notarized.contains(id)
                }
            }
    }
}

/// The candidates that the finalization of `trigger` reaches.
pub open spec fn final_chain(
    s: ConsensusView,
    trigger: RawCandidateId,
    inputs: FinalizationInputs,
) -> FinalChain {
    FinalChain {
        received: inputs.book@.received,
        trigger,
        masterchain: inputs.desc.shard_ident().masterchain(),
        floor: match s.last_mc {
            Some(seqno) => seqno,
            None => 0,
        },
    }
}

/// Whether the record of a candidate was stored.
pub open spec fn stored(writes: Seq<(FinalizedBlockRecord, bool)>, id: RawCandidateId) -> bool {
    exists|i: int|
        0 <= i < writes.len() && (#[trigger] writes[i]).1 && writes[i].0.candidate_id == id
}

/// Whether the candidate's block could be delivered: with a certificate whose
/// signatures can stand under it, and with what they sign at hand; and is known as
/// the one at its seqno if that worked.
spec fn backed(e: Delivery, t: ConsensusView, env: WalkEnv, c: FinalChain) -> bool {
    let rec = c.received[e.id];
    &&& !rec.is_empty
    &&& !e.is_final ==> env.notarized.contains(e.id) && env.notar_usable.contains(e.id)
        && rec.candidate_hash_data_bytes.len() > 0
    &&& e.is_final ==> env.final_usable && env.trigger_hash_data().len() > 0
    &&& e.ok ==> t.sent.contains(e.id) && t.sent_seqno.dom().contains(rec.block_id.seq_no)
        && t.sent_seqno[rec.block_id.seq_no].slot == e.id.slot
        && t.sent_seqno[rec.block_id.seq_no].block_id == rec.block_id
}

/// Whether all blocks that were handed over could be delivered.
spec fn all_backed(w: WalkState, env: WalkEnv, c: FinalChain) -> bool {
    forall|i: int| 0 <= i < w.deliveries.len() ==> backed(#[trigger] w.deliveries[i], w.s, env, c)
}

/// Whether no delivery on the masterchain failed.
spec fn unbroken(w: WalkState, c: FinalChain) -> bool {
    c.masterchain ==> forall|i: int|
        0 <= i < w.deliveries.len() ==> (#[trigger] w.deliveries[i]).ok
}

proof fn lemma_emitted_backed(
    s: ConsensusView,
    w: WalkState,
    id: RawCandidateId,
    has_final_cert: bool,
    n: nat,
    env: WalkEnv,
    c: FinalChain,
)
    requires
        all_backed(w, env, c),
        stands_at(id, has_final_cert, n, env, s, c),
        c.known(n),
        !(env.masterchain && !has_final_cert),
    ensures
        ({
            let (v, breach) = walk_emitted(w, id, c.entry(n), has_final_cert, env);
            &&& all_backed(v, env, c)
            &&& unbroken(w, c) && breach is None ==> unbroken(v, c)
        }),
{
    let (v, breach) = walk_emitted(w, id, c.entry(n), has_final_cert, env);
    let m = w.deliveries.len() as int;
    assert forall|i: int| 0 <= i < v.deliveries.len() implies backed(
        #[trigger] v.deliveries[i],
        v.s,
        env,
        c,
    ) by {
        if i < m {
            assert(v.deliveries[i] == w.deliveries[i]);
            assert(backed(w.deliveries[i], w.s, env, c));
        }
    }
    if unbroken(w, c) && breach is None && c.masterchain {
        assert forall|i: int| 0 <= i < v.deliveries.len() implies (#[trigger] v.deliveries[i]).ok by {
            if i < m {
                assert(v.deliveries[i] == w.deliveries[i]);
                assert(w.deliveries[i].ok);
            }
        }
    }
}

proof fn lemma_same_deliveries_backed(w: WalkState, v: WalkState, env: WalkEnv, c: FinalChain)
    requires
        all_backed(w, env, c),
        v.deliveries == w.deliveries,
        w.s.sent.subset_of(v.s.sent),
        v.s.sent_seqno == w.s.sent_seqno,
    ensures
        all_backed(v, env, c),
        unbroken(w, c) ==> unbroken(v, c),
{
    assert forall|i: int| 0 <= i < v.deliveries.len() implies backed(
        #[trigger] v.deliveries[i],
        v.s,
        env,
        c,
    ) by {
        assert(backed(w.deliveries[i], w.s, env, c));
    }
}

proof fn lemma_step_backed(
    s: ConsensusView,
    w: WalkState,
    id: RawCandidateId,
    has_final_cert: bool,
    n: nat,
    env: WalkEnv,
    c: FinalChain,
)
    requires
        all_backed(w, env, c),
        stands_at(id, has_final_cert, n, env, s, c),
    ensures
        ({
            let (v, r) = walk_step(w, id, has_final_cert, env);
            &&& all_backed(v, env, c)
            &&& unbroken(w, c) && !(r matches Err(WalkEnd::Breach(_))) ==> unbroken(v, c)
        }),
{
    let (v, r) = walk_step(w, id, has_final_cert, env);
    if c.known(n) && !(env.masterchain && !has_final_cert) && c.entry(
        n,
    ).candidate_hash_data_bytes.len() > 0 {
        let rec = c.entry(n);
        let (applied, ok) = walk_applied(w, id, rec, has_final_cert, env);
        lemma_same_deliveries_backed(w, applied, env, c);
        if ok {
            let (emitted, breach) = walk_emitted(applied, id, rec, has_final_cert, env);
            lemma_emitted_backed(s, applied, id, has_final_cert, n, env, c);
            lemma_same_deliveries_backed(emitted, v, env, c);
        }
    } else {
        lemma_same_deliveries_backed(w, v, env, c);
    }
}

/// What a walk has done before its step `n`.
spec fn so_far(s: ConsensusView, w: WalkState, n: nat, env: WalkEnv, c: FinalChain) -> bool {
    &&& w.s.last_mc == s.last_mc
    &&& s.sent.subset_of(w.s.sent)
    &&& s.sent_seqno.submap_of(w.s.sent_seqno)
    &&& forall|id: RawCandidateId| #[trigger]
        w.s.finalized.contains(id) <==> s.finalized.contains(id) || stored(w.writes, id)
    &&& forall|id: RawCandidateId| #[trigger]
        w.s.sent.contains(id) ==> s.sent.contains(id) || (c.received.dom().contains(id)
            && !c.received[id].is_empty && (c.holds(id, true, n) || c.holds(id, false, n)))
    &&& forall|i: int|
        0 <= i < w.writes.len() ==> {
            let record = (#[trigger] w.writes[i]).0;
            let id = record.candidate_id;
            &&& !s.finalized.contains(id)
            &&& c.received.dom().contains(id)
            &&& record.block_id == c.received[id].block_id
            &&& record.parent == c.received[id].parent_id
            &&& c.holds(id, record.is_final, n)
        }
    &&& forall|i: int|
        0 <= i < w.deliveries.len() ==> c.holds(
            (#[trigger] w.deliveries[i]).id,
            w.deliveries[i].is_final,
            n,
        )
    &&& forall|i: int|
        0 <= i < w.requests.len() ==> c.lacks(
            #[trigger] w.requests[i],
            env.notarized,
            s.sent,
            n,
        )
    &&& !w.complete ==> {
        ||| w.requests.len() > 0
        ||| exists|i: int| 0 <= i < w.writes.len() && !(#[trigger] w.writes[i]).1
        ||| exists|i: int| 0 <= i < w.deliveries.len() && !(#[trigger] w.deliveries[i]).ok
    }
}

/// Whether a walk stands at the candidate `n` steps up.
spec fn stands_at(
    id: RawCandidateId,
    has_final_cert: bool,
    n: nat,
    env: WalkEnv,
    s: ConsensusView,
    c: FinalChain,
) -> bool {
    &&& c.received == env.book.received
    &&& c.trigger == env.trigger
    &&& c.masterchain == env.masterchain
    &&& c.floor == or_zero(s.last_mc)
    &&& c.reaches(n)
    &&& c.at(n) == Some(id)
    &&& has_final_cert == c.under_final(n)
}

/// What a walk left behind up to its step `n`, if nothing was missing.
spec fn all_settled(s: ConsensusView, w: WalkState, n: nat, c: FinalChain) -> bool {
    w.complete ==> forall|k: nat| k < n ==> #[trigger] c.settled(s, w.s, k)
}

proof fn lemma_chain_goes_on(c: FinalChain, n: nat, next: RawCandidateId)
    requires
        c.reaches(n),
        c.known(n),
        !c.ends(n),
        c.entry(n).parent_id == Some(next),
    ensures
        c.at(n + 1) == Some(next),
        c.reaches(n + 1),
        c.under_final(n + 1) == (c.under_final(n) && c.entry(n).is_empty),
{
    assert forall|k: nat| k < n + 1 implies !#[trigger] c.ends(k) by {
        if k < n {
            assert(!c.ends(k));
        }
    }
    if c.under_final(n + 1) {
        assert forall|k: nat| k < n implies #[trigger] c.known(k) && c.entry(k).is_empty by {
            assert(k < n + 1);
        }
        assert(c.known(n) && c.entry(n).is_empty);
    }
}

proof fn lemma_holds_longer(c: FinalChain, n: nat)
    ensures
        forall|id: RawCandidateId, is_final: bool| #[trigger]
            c.holds(id, is_final, n) ==> c.holds(id, is_final, n + 1),
        forall|id: RawCandidateId, notarized: Set<RawCandidateId>, sent: Set<RawCandidateId>|
            #[trigger] c.lacks(id, notarized, sent, n) ==> c.lacks(id, notarized, sent, n + 1),
{
}

proof fn lemma_holds_here(c: FinalChain, id: RawCandidateId, n: nat)
    requires
        c.reaches(n),
        c.at(n) == Some(id),
    ensures
        c.holds(id, c.under_final(n), n + 1),
{
}

proof fn lemma_more_time(s: ConsensusView, w: WalkState, n: nat, env: WalkEnv, c: FinalChain)
    requires
        so_far(s, w, n, env, c),
    ensures
        so_far(s, w, n + 1, env, c),
{
    lemma_holds_longer(c, n);
}

proof fn lemma_applied_so_far(
    s: ConsensusView,
    w: WalkState,
    id: RawCandidateId,
    has_final_cert: bool,
    n: nat,
    env: WalkEnv,
    c: FinalChain,
)
    requires
        so_far(s, w, n + 1, env, c),
        stands_at(id, has_final_cert, n, env, s, c),
        c.known(n),
    ensures
        ({
            let (v, ok) = walk_applied(w, id, c.entry(n), has_final_cert, env);
            &&& so_far(s, v, n + 1, env, c)
            &&& ok && c.entry(n).candidate_hash_data_bytes.len() > 0 ==> v.s.finalized.contains(id)
            &&& w.s.finalized.subset_of(v.s.finalized)
            &&& v.s.sent == w.s.sent
            &&& v.s.sent_seqno == w.s.sent_seqno
            &&& v.complete ==> w.complete
            &&& !ok ==> !v.complete
        }),
{
    let rec = c.entry(n);
    let v = walk_applied(w, id, rec, has_final_cert, env).0;
    lemma_holds_here(c, id, n);
    if to_apply(w.s, id, rec) {
        let m = w.writes.len() as int;
        let last = v.writes[m];
        assert(v.writes =~= w.writes.push(last));
        assert forall|x: RawCandidateId| #[trigger]
            v.s.finalized.contains(x) <==> s.finalized.contains(x) || stored(v.writes, x) by {
            assert(w.s.finalized.contains(x) <==> s.finalized.contains(x) || stored(w.writes, x));
            if stored(w.writes, x) {
                let i = choose|i: int|
                    0 <= i < w.writes.len() && (#[trigger] w.writes[i]).1
                        && w.writes[i].0.candidate_id == x;
                assert(v.writes[i] == w.writes[i]);
            }
            if stored(v.writes, x) && !(x == id && last.1) {
                let i = choose|i: int|
                    0 <= i < v.writes.len() && (#[trigger] v.writes[i]).1
                        && v.writes[i].0.candidate_id == x;
                assert(i < m);
                assert(w.writes[i] == v.writes[i]);
            }
            if x == id && last.1 {
                assert(v.writes[m].1 && v.writes[m].0.candidate_id == x);
            }
        }
        assert(!s.finalized.contains(id)) by {
            assert(!w.s.finalized.contains(id));
        }
        assert forall|i: int| 0 <= i < v.writes.len() implies {
            let record = (#[trigger] v.writes[i]).0;
            &&& !s.finalized.contains(record.candidate_id)
            &&& c.received.dom().contains(record.candidate_id)
            &&& record.block_id == c.received[record.candidate_id].block_id
            &&& record.parent == c.received[record.candidate_id].parent_id
            &&& c.holds(record.candidate_id, record.is_final, n + 1)
        } by {
            if i < m {
                assert(v.writes[i] == w.writes[i]);
            }
        }
        if !v.complete {
            if last.1 {
                if exists|i: int| 0 <= i < w.writes.len() && !(#[trigger] w.writes[i]).1 {
                    let i = choose|i: int| 0 <= i < w.writes.len() && !(#[trigger] w.writes[i]).1;
                    assert(!v.writes[i].1);
                }
                if exists|i: int| 0 <= i < w.deliveries.len() && !(#[trigger] w.deliveries[i]).ok {
                    assert(v.deliveries == w.deliveries);
                }
            } else {
                assert(!v.writes[m].1);
            }
        }
    }
}

proof fn lemma_emitted_so_far(
    s: ConsensusView,
    w: WalkState,
    id: RawCandidateId,
    has_final_cert: bool,
    n: nat,
    env: WalkEnv,
    c: FinalChain,
)
    requires
        so_far(s, w, n + 1, env, c),
        stands_at(id, has_final_cert, n, env, s, c),
        c.known(n),
        !(env.masterchain && !has_final_cert),
    ensures
        ({
            let rec = c.entry(n);
            let (v, breach) = walk_emitted(w, id, rec, has_final_cert, env);
            &&& so_far(s, v, n + 1, env, c)
            &&& v.s.finalized == w.s.finalized
            &&& w.s.sent.subset_of(v.s.sent)
            &&& w.s.sent_seqno.submap_of(v.s.sent_seqno)
            &&& v.complete ==> w.complete
            &&& v.complete && breach is None && !rec.is_empty ==> {
                &&& v.s.sent.contains(id)
                &&& w.s.sent.contains(id) || (!c.masterchain && rec.block_id.seq_no < c.floor) || (
                v.s.sent_seqno.dom().contains(rec.block_id.seq_no)
                    && v.s.sent_seqno[rec.block_id.seq_no].block_id == rec.block_id)
            }
        }),
{
    let rec = c.entry(n);
    let (v, breach) = walk_emitted(w, id, rec, has_final_cert, env);
    lemma_holds_here(c, id, n);
    assert(v.writes == w.writes);
    if v.deliveries != w.deliveries {
        let m = w.deliveries.len() as int;
        let last = v.deliveries[m];
        assert(v.deliveries =~= w.deliveries.push(last));
        assert forall|i: int| 0 <= i < v.deliveries.len() implies c.holds(
            (#[trigger] v.deliveries[i]).id,
            v.deliveries[i].is_final,
            n + 1,
        ) by {
            if i < m {
                assert(v.deliveries[i] == w.deliveries[i]);
            }
        }
        if !last.ok {
            assert(!v.deliveries[m].ok);
        } else if exists|i: int| 0 <= i < w.deliveries.len() && !(#[trigger] w.deliveries[i]).ok {
            let i = choose|i: int| 0 <= i < w.deliveries.len() && !(#[trigger] w.deliveries[i]).ok;
            assert(!v.deliveries[i].ok);
        }
    }
    if v.requests != w.requests {
        let m = w.requests.len() as int;
        assert(v.requests =~= w.requests.push(id));
        assert(c.lacks(id, env.notarized, s.sent, n + 1)) by {
            assert(c.reaches(n));
            assert(!s.sent.contains(id));
        }
        assert forall|i: int| 0 <= i < v.requests.len() implies c.lacks(
            #[trigger] v.requests[i],
            env.notarized,
            s.sent,
            n + 1,
        ) by {
            if i < m {
                assert(v.requests[i] == w.requests[i]);
            }
        }
    }
}

proof fn lemma_asked_so_far(
    s: ConsensusView,
    w: WalkState,
    id: RawCandidateId,
    has_final_cert: bool,
    n: nat,
    env: WalkEnv,
    c: FinalChain,
)
    requires
        so_far(s, w, n + 1, env, c),
        stands_at(id, has_final_cert, n, env, s, c),
        !c.known(n) || (!c.behind(n) && c.entry(n).candidate_hash_data_bytes.len() == 0),
    ensures
        so_far(
            s,
            (WalkState { requests: w.requests.push(id), complete: false, ..w }),
            n + 1,
            env,
            c,
        ),
{
    let v = WalkState { requests: w.requests.push(id), complete: false, ..w };
    assert(c.lacks(id, env.notarized, s.sent, n + 1)) by {
        assert(c.reaches(n));
    }
    assert forall|i: int| 0 <= i < v.requests.len() implies c.lacks(
        #[trigger] v.requests[i],
        env.notarized,
        s.sent,
        n + 1,
    ) by {
        if i < w.requests.len() {
            assert(v.requests[i] == w.requests[i]);
        }
    }
}

proof fn lemma_marked_so_far(
    s: ConsensusView,
    w: WalkState,
    id: RawCandidateId,
    has_final_cert: bool,
    n: nat,
    env: WalkEnv,
    c: FinalChain,
)
    requires
        so_far(s, w, n + 1, env, c),
        stands_at(id, has_final_cert, n, env, s, c),
        c.known(n),
        !c.entry(n).is_empty,
    ensures
        so_far(
            s,
            (WalkState { s: ConsensusView { sent: w.s.sent.insert(id), ..w.s }, ..w }),
            n + 1,
            env,
            c,
        ),
{
    let v = WalkState { s: ConsensusView { sent: w.s.sent.insert(id), ..w.s }, ..w };
    lemma_holds_here(c, id, n);
    assert(v.s.finalized == w.s.finalized);
    assert(v.writes == w.writes);
    assert(v.deliveries == w.deliveries);
    assert(v.requests == w.requests);
    assert forall|x: RawCandidateId| #[trigger] v.s.sent.contains(x) implies s.sent.contains(x) || (
    c.received.dom().contains(x) && !c.received[x].is_empty && (c.holds(x, true, n + 1) || c.holds(
        x,
        false,
        n + 1,
    ))) by {
        if x != id {
            assert(w.s.sent.contains(x));
        } else if c.under_final(n) {
            assert(c.holds(x, true, n + 1));
        } else {
            assert(c.holds(x, false, n + 1));
        }
    }
}

/// A candidate that counts as delivered at the step `n` did so before the walk,
/// or was settled at an earlier step.
proof fn lemma_sent_before(
    s: ConsensusView,
    w: WalkState,
    id: RawCandidateId,
    n: nat,
    env: WalkEnv,
    c: FinalChain,
)
    requires
        so_far(s, w, n, env, c),
        w.complete,
        all_settled(s, w, n, c),
        c.reaches(n),
        c.known(n),
        c.at(n) == Some(id),
        w.s.sent.contains(id),
    ensures
        s.sent.contains(id) || (!c.masterchain && c.entry(n).block_id.seq_no < c.floor) || (
        w.s.sent_seqno.dom().contains(c.entry(n).block_id.seq_no)
            && w.s.sent_seqno[c.entry(n).block_id.seq_no].block_id == c.entry(n).block_id),
{
    if !s.sent.contains(id) {
        let is_final = c.holds(id, true, n);
        assert(c.holds(id, is_final, n));
        let k = choose|k: nat|
            k < n && #[trigger] c.reaches(k) && c.at(k) == Some(id) && is_final == c.under_final(k);
        assert(c.settled(s, w.s, k));
        assert(!c.ends(k));
    }
}

proof fn lemma_settled_stays(
    s: ConsensusView,
    t: ConsensusView,
    u: ConsensusView,
    n: nat,
    c: FinalChain,
)
    requires
        t.finalized.subset_of(u.finalized),
        t.sent.subset_of(u.sent),
        t.sent_seqno.submap_of(u.sent_seqno),
        forall|k: nat| k < n ==> #[trigger] c.settled(s, t, k),
    ensures
        forall|k: nat| k < n ==> #[trigger] c.settled(s, u, k),
{
    assert forall|k: nat| k < n implies #[trigger] c.settled(s, u, k) by {
        assert(c.settled(s, t, k));
    }
}

/// How a step leads from the candidate `n` steps up to the next one.
spec fn steps_on(
    s: ConsensusView,
    v: WalkState,
    r: Result<(RawCandidateId, bool), WalkEnd>,
    n: nat,
    env: WalkEnv,
    c: FinalChain,
) -> bool {
    match r {
        Ok((next, cert)) => stands_at(next, cert, n + 1, env, s, c),
        Err(end) => {
            &&& end is Complete ==> v.complete && c.ends(n)
            &&& end is Incomplete ==> !v.complete
            &&& !(end is TooDeep)
            &&& !(end is Cycle)
        },
    }
}

proof fn lemma_step_so_far(
    s: ConsensusView,
    w: WalkState,
    id: RawCandidateId,
    has_final_cert: bool,
    n: nat,
    env: WalkEnv,
    c: FinalChain,
)
    requires
        so_far(s, w, n, env, c),
        all_settled(s, w, n, c),
        stands_at(id, has_final_cert, n, env, s, c),
    ensures
        ({
            let (v, r) = walk_step(w, id, has_final_cert, env);
            &&& so_far(s, v, n + 1, env, c)
            &&& r is Ok || r->Err_0 is Complete ==> all_settled(s, v, n + 1, c)
            &&& steps_on(s, v, r, n, env, c)
        }),
{
    let (v, r) = walk_step(w, id, has_final_cert, env);
    lemma_more_time(s, w, n, env, c);
    if !c.known(n) {
        lemma_asked_so_far(s, w, id, has_final_cert, n, env, c);
    } else {
        let rec = c.entry(n);
        if env.masterchain && !has_final_cert {
            if !rec.is_empty {
                lemma_marked_so_far(s, w, id, has_final_cert, n, env, c);
            }
            if w.complete {
                lemma_settled_stays(s, w.s, v.s, n, c);
            }
        } else {
            let (done, end) = if rec.candidate_hash_data_bytes.len() > 0 {
                walk_body(w, id, rec, has_final_cert, env)
            } else if c.behind(n) {
                (w, None)
            } else {
                (WalkState { requests: w.requests.push(id), complete: false, ..w }, None)
            };
            if rec.candidate_hash_data_bytes.len() > 0 {
                let (applied, ok) = walk_applied(w, id, rec, has_final_cert, env);
                lemma_applied_so_far(s, w, id, has_final_cert, n, env, c);
                if ok {
                    lemma_emitted_so_far(s, applied, id, has_final_cert, n, env, c);
                }
                assert(so_far(s, done, n + 1, env, c));
                assert(w.s.finalized.subset_of(done.s.finalized));
                assert(w.s.sent.subset_of(done.s.sent));
                assert(w.s.sent_seqno.submap_of(done.s.sent_seqno));
            } else if !c.behind(n) {
                lemma_asked_so_far(s, w, id, has_final_cert, n, env, c);
            }
            if end is None {
                if c.behind(n) && !rec.is_empty {
                    lemma_marked_so_far(s, done, id, has_final_cert, n, env, c);
                }
                if r is Ok {
                    lemma_chain_goes_on(c, n, r->Ok_0.0);
                }
                if v.complete {
                    lemma_settled_stays(s, w.s, v.s, n, c);
                    if w.s.sent.contains(id) {
                        lemma_sent_before(s, w, id, n, env, c);
                    }
                    assert(c.settled(s, v.s, n));
                }
            }
        }
    }
}

/// Whether a walk had this reason to break off, and stands in `t`.
pub open spec fn breaks_off(
    breach: FinalizationBreach,
    t: ConsensusView,
    deliveries: Seq<Delivery>,
    final_usable: bool,
    notar_usable: Set<RawCandidateId>,
    c: FinalChain,
    n: nat,
) -> bool {
    match breach {
        FinalizationBreach::SeqnoReused { seqno, existing, new } => {
            &&& exists|k: nat|
                k < n && #[trigger] c.reaches(k) && c.known(k) && !c.entry(k).is_empty && c.entry(
                    k,
                ).block_id == new
            &&& new.seq_no == seqno
            &&& existing != new
            &&& t.sent_seqno.dom().contains(seqno)
            &&& t.sent_seqno[seqno].block_id == existing
        },
        FinalizationBreach::MissingHashData(id) => {
            &&& id == c.trigger
            &&& c.received.dom().contains(id) ==> c.received[id].candidate_hash_data_bytes.len()
                == 0
        },
        FinalizationBreach::UnusableSignatures(id) => {
            ||| c.holds(id, true, n) && !final_usable
            ||| c.holds(id, false, n) && !notar_usable.contains(id)
        },
        FinalizationBreach::CallbackLost(id) => {
            &&& c.masterchain
            &&& deliveries.len() > 0
            &&& deliveries.last() == (Delivery { id, is_final: true, ok: false })
        },
    }
}

proof fn lemma_step_breaks_off(
    s: ConsensusView,
    w: WalkState,
    id: RawCandidateId,
    has_final_cert: bool,
    n: nat,
    env: WalkEnv,
    c: FinalChain,
)
    requires
        stands_at(id, has_final_cert, n, env, s, c),
        w.s.last_mc == s.last_mc,
    ensures
        ({
            let (v, r) = walk_step(w, id, has_final_cert, env);
            r matches Err(WalkEnd::Breach(b)) ==> breaks_off(
                b,
                v.s,
                v.deliveries,
                env.final_usable,
                env.notar_usable,
                c,
                n + 1,
            )
        }),
{
    lemma_holds_here(c, id, n);
    if c.known(n) {
        assert(c.reaches(n) && c.known(n));
    }
}

/// How a walk can end, all in all.
spec fn walk_ends(
    s: ConsensusView,
    v: WalkState,
    end: WalkEnd,
    env: WalkEnv,
    c: FinalChain,
) -> bool {
    let most = MAX_CHAIN_DEPTH as nat;
    &&& !(end is Breach) ==> unbroken(v, c)
    &&& match end {
        WalkEnd::Complete => v.complete && forall|k: nat| #[trigger]
            c.reaches(k) ==> k < most && c.settled(s, v.s, k),
        WalkEnd::Incomplete => !v.complete,
        WalkEnd::TooDeep => c.reaches(most),
        WalkEnd::Cycle => exists|i: nat, j: nat|
            i < j && #[trigger] c.reaches(j) && #[trigger] c.at(i) == c.at(j),
        WalkEnd::Breach(b) => breaks_off(
            b,
            v.s,
            v.deliveries,
            env.final_usable,
            env.notar_usable,
            c,
            most,
        ),
    }
}

proof fn lemma_much_more_time(
    s: ConsensusView,
    w: WalkState,
    n: nat,
    m: nat,
    env: WalkEnv,
    c: FinalChain,
)
    requires
        so_far(s, w, n, env, c),
        n <= m,
    ensures
        so_far(s, w, m, env, c),
    decreases m - n,
{
    if n < m {
        lemma_more_time(s, w, n, env, c);
        lemma_much_more_time(s, w, n + 1, m, env, c);
    }
}

proof fn lemma_holds_much_longer(c: FinalChain, n: nat, m: nat)
    requires
        n <= m,
    ensures
        forall|id: RawCandidateId, is_final: bool| #[trigger]
            c.holds(id, is_final, n) ==> c.holds(id, is_final, m),
    decreases m - n,
{
    if n < m {
        lemma_holds_longer(c, n);
        lemma_holds_much_longer(c, n + 1, m);
    }
}

proof fn lemma_walk_so_far(
    s: ConsensusView,
    w: WalkState,
    id: RawCandidateId,
    has_final_cert: bool,
    visited: Set<RawCandidateId>,
    fuel: nat,
    n: nat,
    env: WalkEnv,
    c: FinalChain,
)
    requires
        so_far(s, w, n, env, c),
        all_settled(s, w, n, c),
        all_backed(w, env, c),
        unbroken(w, c),
        stands_at(id, has_final_cert, n, env, s, c),
        fuel + n == MAX_CHAIN_DEPTH,
        forall|x: RawCandidateId| #[trigger]
            visited.contains(x) ==> exists|k: nat| k < n && #[trigger] c.at(k) == Some(x),
    ensures
        ({
            let (v, end) = walk(w, id, has_final_cert, visited, fuel, env);
            &&& so_far(s, v, MAX_CHAIN_DEPTH as nat, env, c)
            &&& all_backed(v, env, c)
            &&& walk_ends(s, v, end, env, c)
        }),
    decreases fuel,
{
    if fuel == 0 {
    } else if visited.contains(id) {
        lemma_much_more_time(s, w, n, MAX_CHAIN_DEPTH as nat, env, c);
        let k = choose|k: nat| k < n && #[trigger] c.at(k) == Some(id);
        assert(c.reaches(n) && c.at(k) == c.at(n));
    } else {
        lemma_step_so_far(s, w, id, has_final_cert, n, env, c);
        lemma_step_backed(s, w, id, has_final_cert, n, env, c);
        let (v, r) = walk_step(w, id, has_final_cert, env);
        match r {
            Ok((next, cert)) => {
                let seen = visited.insert(id);
                assert forall|x: RawCandidateId| #[trigger] seen.contains(x) implies exists|k: nat|
                    k < n + 1 && #[trigger] c.at(k) == Some(x) by {
                    if x == id {
                        assert(c.at(n) == Some(x));
                    } else {
                        assert(visited.contains(x));
                        let k = choose|k: nat| k < n && #[trigger] c.at(k) == Some(x);
                        assert(k < n + 1 && c.at(k) == Some(x));
                    }
                }
                lemma_walk_so_far(s, v, next, cert, seen, (fuel - 1) as nat, n + 1, env, c);
            },
            Err(end) => {
                lemma_much_more_time(s, v, n + 1, MAX_CHAIN_DEPTH as nat, env, c);
                lemma_step_breaks_off(s, w, id, has_final_cert, n, env, c);
                lemma_holds_much_longer(c, n + 1, MAX_CHAIN_DEPTH as nat);
                if end is Complete {
                    assert forall|k: nat| #[trigger] c.reaches(k) implies k < MAX_CHAIN_DEPTH
                        && c.settled(s, v.s, k) by {
                        if k > n {
                            assert(!c.ends(n));
                        }
                        assert(k < n + 1);
                    }
                }
            },
        }
    }
}

/// All that the laws below say of a walk.
proof fn lemma_walked(
    s: ConsensusView,
    trigger: RawCandidateId,
    final_sigs: Seq<VoteSignature>,
    inputs: FinalizationInputs,
    report: WalkReport,
    t: ConsensusView,
) -> (r: (WalkState, WalkEnv))
    requires
        walked(s, trigger, final_sigs, inputs, report, t),
    ensures
        r.0.s == t,
        r.0.writes == report.writes@,
        r.0.deliveries == report.deliveries@,
        r.0.requests == report.requests@,
        r.1.final_usable == inputs.usable(final_sigs, trigger, true),
        forall|id: RawCandidateId|
            r.1.notar_usable.contains(id) == #[trigger] inputs.usable(final_sigs, id, false),
        r.1.notarized == inputs.notar_certs@.dom(),
        r.1.trigger == trigger,
        r.1.book == inputs.book@,
        so_far(s, r.0, MAX_CHAIN_DEPTH as nat, r.1, final_chain(s, trigger, inputs)),
        all_backed(r.0, r.1, final_chain(s, trigger, inputs)),
        walk_ends(s, r.0, report.end, r.1, final_chain(s, trigger, inputs)),
{
    let c = final_chain(s, trigger, inputs);
    let env = inputs.env(
        trigger,
        final_sigs,
        worked(write_log(report.writes@)),
        worked(delivery_log(report.deliveries@)),
    );
    let w = walk_start(s);
    assert(c.at(0) == Some(trigger));
    assert(c.reaches(0));
    assert(c.under_final(0));
    assert(so_far(s, w, 0, env, c));
    lemma_walk_so_far(
        s,
        w,
        trigger,
        true,
        Set::empty(),
        MAX_CHAIN_DEPTH as nat,
        0,
        env,
        c,
    );
    let result = walk(w, trigger, true, Set::empty(), MAX_CHAIN_DEPTH as nat, env);
    (result.0, env)
}

/// A walk that ends as complete has dealt with the whole chain of a shard's
/// finalization: from the finalized candidate by the parent links of the book
/// down to the first candidate without a parent, or the first one below the
/// registered seqno that the finalization certificate does not stand for.
///
/// Each of these candidates is in the book. Each is finalized, except that the
/// one below the registered seqno need not be if the book has no body of it. Each
/// that has a block of its own counts as delivered, and where that block is not
/// below the registered seqno and was not dealt with before, it is the one that
/// was delivered at its seqno.
pub proof fn complete_walks_reach_the_whole_chain(
    s: ConsensusView,
    trigger: RawCandidateId,
    final_sigs: Seq<VoteSignature>,
    inputs: FinalizationInputs,
    report: WalkReport,
    t: ConsensusView,
    n: nat,
)
    requires
        walked(s, trigger, final_sigs, inputs, report, t),
        report.end is Complete,
        !inputs.desc.shard_ident().masterchain(),
        ancestor(inputs.book@.received, trigger, n) is Some,
        forall|k: nat|
            k < n ==> {
                let rec = inputs.book@.received[(#[trigger] ancestor(
                    inputs.book@.received,
                    trigger,
                    k,
                ))->Some_0];
                rec.block_id.seq_no >= or_zero(s.last_mc) || final_chain(
                    s,
                    trigger,
                    inputs,
                ).under_final(k)
            },
    ensures
        ({
            let id = ancestor(inputs.book@.received, trigger, n)->Some_0;
            let rec = inputs.book@.received[id];
            let seqno = rec.block_id.seq_no;
            &&& inputs.book@.received.dom().contains(id)
            &&& seqno >= or_zero(s.last_mc) ==> t.finalized.contains(id)
            &&& rec.candidate_hash_data_bytes.len() > 0 ==> t.finalized.contains(id)
            &&& !rec.is_empty ==> t.sent.contains(id)
            &&& !rec.is_empty && seqno >= or_zero(s.last_mc) && !s.sent.contains(id) ==> {
                &&& t.sent_seqno.dom().contains(seqno)
                &&& t.sent_seqno[seqno].block_id == rec.block_id
            }
        }),
{
    let c = final_chain(s, trigger, inputs);
    let _ = lemma_walked(s, trigger, final_sigs, inputs, report, t);
    lemma_no_end_before(c, n);
    assert(c.reaches(n));
    assert(c.settled(s, t, n));
}

/// A chain has no end before the candidate `n` steps up if no candidate before
/// it is passed over.
proof fn lemma_no_end_before(c: FinalChain, n: nat)
    requires
        c.at(n) is Some,
        forall|k: nat| k < n ==> !(#[trigger] c.at(k) is Some && c.behind(k)),
    ensures
        c.reaches(n),
    decreases n,
{
    if n > 0 {
        let m = (n - 1) as nat;
        assert(c.at(m) is Some);
        lemma_no_end_before(c, m);
        assert(c.known(m) && c.entry(m).parent_id is Some);
        assert(!(c.at(m) is Some && c.behind(m)));
        assert forall|k: nat| k < n implies !#[trigger] c.ends(k) by {
            if k < m {
                assert(!c.ends(k));
            }
        }
    }
}

/// On the masterchain a walk that ends as complete has finalized every candidate
/// from the finalized one up to and with the first that has a block of its own,
/// and that block is the one delivered at its seqno unless it was dealt with
/// before.
pub proof fn complete_masterchain_walks_reach_a_block(
    s: ConsensusView,
    trigger: RawCandidateId,
    final_sigs: Seq<VoteSignature>,
    inputs: FinalizationInputs,
    report: WalkReport,
    t: ConsensusView,
    n: nat,
)
    requires
        walked(s, trigger, final_sigs, inputs, report, t),
        report.end is Complete,
        inputs.desc.shard_ident().masterchain(),
        ancestor(inputs.book@.received, trigger, n) is Some,
        forall|k: nat|
            k < n ==> inputs.book@.received[(#[trigger] ancestor(
                inputs.book@.received,
                trigger,
                k,
            ))->Some_0].is_empty,
    ensures
        ({
            let id = ancestor(inputs.book@.received, trigger, n)->Some_0;
            let rec = inputs.book@.received[id];
            let seqno = rec.block_id.seq_no;
            &&& inputs.book@.received.dom().contains(id)
            &&& t.finalized.contains(id)
            &&& !rec.is_empty ==> t.sent.contains(id)
            &&& !rec.is_empty && !s.sent.contains(id) ==> {
                &&& t.sent_seqno.dom().contains(seqno)
                &&& t.sent_seqno[seqno].block_id == rec.block_id
            }
        }),
{
    let c = final_chain(s, trigger, inputs);
    let _ = lemma_walked(s, trigger, final_sigs, inputs, report, t);
    lemma_ancestors_known(c, n);
    assert forall|k: nat| k <= n implies #[trigger] c.under_final(k) by {
        assert forall|j: nat| j < k implies #[trigger] c.known(j) && c.entry(j).is_empty by {
            assert(c.at(j) == ancestor(inputs.book@.received, trigger, j));
        }
    }
    assert forall|k: nat| k < n implies !(#[trigger] c.at(k) is Some && c.behind(k)) by {
        assert(c.under_final(k));
    }
    lemma_no_end_before(c, n);
    assert(c.under_final(n));
    assert(c.reaches(n));
    assert(c.settled(s, t, n));
}

/// The candidates below a known one are known.
proof fn lemma_ancestors_known(c: FinalChain, n: nat)
    requires
        c.at(n) is Some,
    ensures
        forall|k: nat| k < n ==> #[trigger] c.known(k),
    decreases n,
{
    if n > 0 {
        let m = (n - 1) as nat;
        assert(c.known(m));
        lemma_ancestors_known(c, m);
    }
}

/// A walk touches nothing but the chain of the finalization, and touches it by
/// what the book has of it.
///
/// What it stores is the record of a candidate that it reaches and that was not
/// finalized before, with the block and the parent that the book names. What it
/// stores or delivers counts as final exactly where no candidate before it on
/// the chain has a block of its own. The candidates whose records were stored are
/// the ones that are newly finalized. Nothing else newly counts as delivered but
/// candidates that it reaches and that have a block of their own.
pub proof fn walks_stay_on_the_chain(
    s: ConsensusView,
    trigger: RawCandidateId,
    final_sigs: Seq<VoteSignature>,
    inputs: FinalizationInputs,
    report: WalkReport,
    t: ConsensusView,
)
    requires
        walked(s, trigger, final_sigs, inputs, report, t),
    ensures
        ({
            let c = final_chain(s, trigger, inputs);
            let most = MAX_CHAIN_DEPTH as nat;
            &&& forall|id: RawCandidateId| #[trigger]
                t.finalized.contains(id) <==> s.finalized.contains(id) || stored(
                    report.writes@,
                    id,
                )
            &&& forall|id: RawCandidateId| #[trigger]
                t.sent.contains(id) && !s.sent.contains(id) ==> {
                    &&& c.received.dom().contains(id) && !c.received[id].is_empty
                    &&& c.holds(id, true, most) || c.holds(id, false, most)
                }
            &&& forall|i: int|
                0 <= i < report.writes@.len() ==> {
                    let record = (#[trigger] report.writes@[i]).0;
                    let id = record.candidate_id;
                    &&& !s.finalized.contains(id)
                    &&& c.received.dom().contains(id)
                    &&& record.block_id == c.received[id].block_id
                    &&& record.parent == c.received[id].parent_id
                    &&& c.holds(id, record.is_final, most)
                }
            &&& forall|i: int|
                0 <= i < report.deliveries@.len() ==> c.holds(
                    (#[trigger] report.deliveries@[i]).id,
                    report.deliveries@[i].is_final,
                    most,
                )
        }),
{
    let _ = lemma_walked(s, trigger, final_sigs, inputs, report, t);
}

/// A block is delivered only with what it takes: under the finalization certificate if
/// its signatures can stand under a block and the finalized candidate's body is there,
/// else under the candidate's own notarization certificate if there is one, its
/// signatures can and the body is there. A block that was delivered with success is
/// the one known at its seqno, with the slot of its candidate. On the masterchain a
/// delivery that fails breaks the walk off.
pub proof fn deliveries_are_backed_by_certificates(
    s: ConsensusView,
    trigger: RawCandidateId,
    final_sigs: Seq<VoteSignature>,
    inputs: FinalizationInputs,
    report: WalkReport,
    t: ConsensusView,
    i: int,
)
    requires
        walked(s, trigger, final_sigs, inputs, report, t),
        0 <= i < report.deliveries@.len(),
    ensures
        ({
            let e = report.deliveries@[i];
            let rec = inputs.book@.received[e.id];
            let seqno = rec.block_id.seq_no;
            &&& !rec.is_empty
            &&& inputs.usable(final_sigs, e.id, e.is_final)
            &&& e.is_final ==> inputs.book@.received.dom().contains(trigger)
                && inputs.book@.received[trigger].candidate_hash_data_bytes.len() > 0
            &&& !e.is_final ==> inputs.notar_certs@.dom().contains(e.id)
                && rec.candidate_hash_data_bytes.len() > 0
            &&& e.ok ==> {
                &&& t.sent.contains(e.id)
                &&& t.sent_seqno.dom().contains(seqno)
                &&& t.sent_seqno[seqno].slot == e.id.slot
                &&& t.sent_seqno[seqno].block_id == rec.block_id
            }
            &&& !e.ok && inputs.desc.shard_ident().masterchain() ==> report.end is Breach
            &&& !e.ok ==> !(report.end is Complete)
        }),
{
    let (v, env) = lemma_walked(s, trigger, final_sigs, inputs, report, t);
    let c = final_chain(s, trigger, inputs);
    let e = report.deliveries@[i];
    assert(backed(v.deliveries[i], v.s, env, c));
    assert(env.notar_usable.contains(e.id) == inputs.usable(final_sigs, e.id, false));
    if report.end is Complete {
        complete_walks_miss_nothing(s, trigger, final_sigs, inputs, report, t);
    }
}

/// A walk that does not end as complete has a reason that can be seen.
///
/// If it ends as incomplete, it asked for a candidate, or storing a record or
/// delivering a block failed; and it asks for a candidate only if its body is
/// missing, or the notarization certificate that its block needs. It ends as too
/// deep only on a chain that goes on for [`MAX_CHAIN_DEPTH`] candidates, and on a
/// cycle only where the chain comes back to a candidate. It breaks off only where
/// another block was delivered at a seqno, where the finalized candidate has no
/// body, where signatures cannot stand under a block, or where a masterchain
/// block could not be delivered.
pub proof fn unfinished_walks_have_a_reason(
    s: ConsensusView,
    trigger: RawCandidateId,
    final_sigs: Seq<VoteSignature>,
    inputs: FinalizationInputs,
    report: WalkReport,
    t: ConsensusView,
)
    requires
        walked(s, trigger, final_sigs, inputs, report, t),
    ensures
        ({
            let c = final_chain(s, trigger, inputs);
            let most = MAX_CHAIN_DEPTH as nat;
            &&& forall|i: int|
                0 <= i < report.requests@.len() ==> c.lacks(
                    #[trigger] report.requests@[i],
                    inputs.notar_certs@.dom(),
                    s.sent,
                    most,
                )
            &&& report.end is Incomplete ==> {
                ||| report.requests@.len() > 0
                ||| exists|i: int| 0 <= i < report.writes@.len() && !(#[trigger] report.writes@[i]).1
                ||| exists|i: int|
                    0 <= i < report.deliveries@.len() && !(#[trigger] report.deliveries@[i]).ok
            }
            &&& report.end is TooDeep ==> c.reaches(most)
            &&& report.end is Cycle ==> exists|i: nat, j: nat|
                i < j && #[trigger] c.reaches(j) && #[trigger] c.at(i) == c.at(j)
            &&& report.end matches WalkEnd::Breach(b) ==> breaks_off(
                b,
                t,
                report.deliveries@,
                inputs.usable(final_sigs, trigger, true),
                Set::new(|id: RawCandidateId| inputs.usable(final_sigs, id, false)),
                c,
                most,
            )
        }),
{
    let (v, env) = lemma_walked(s, trigger, final_sigs, inputs, report, t);
    let usable = Set::new(|id: RawCandidateId| inputs.usable(final_sigs, id, false));
    assert(env.notar_usable =~= usable) by {
        assert forall|id: RawCandidateId| env.notar_usable.contains(id) == usable.contains(id) by {
            assert(usable.contains(id) == inputs.usable(final_sigs, id, false));
        }
    }
}

/// The slot that a travelling vote names.
pub open spec fn slot_named(vote: UnsignedVote) -> int {
    match vote {
        UnsignedVote::Notarize(id) | UnsignedVote::Finalize(id) => id.slot as int,
        UnsignedVote::Skip(slot) => slot as int,
    }
}

/// A vote is counted exactly if a validator of the session sent it, it is for a
/// slot at or above the first one that is not final and not too far ahead, its
/// signature verifies and it can be read. If it is dropped, then for a reason
/// that it gives: as one for an old slot only if its slot is below the first one
/// that is not final, and so on.
pub proof fn good_votes_are_counted(
    source: ValidatorIndex,
    vote: UnsignedVote,
    ctx: VoteContext,
    desc: SessionDescription,
)
    ensures
        vote_drop(source, vote, ctx, desc) is None <==> {
            &&& (source.0 as int) < desc.weights().len()
            &&& slot_named(vote) >= ctx.first_non_finalized_slot.0
            &&& !ctx.too_far_ahead
            &&& ctx.signature_valid
            &&& ctx.readable
        },
        match vote_drop(source, vote, ctx, desc) {
            Some(VoteDrop::InvalidSource) => source.0 as int >= desc.weights().len(),
            Some(VoteDrop::NegativeSlot) => slot_named(vote) < 0,
            Some(VoteDrop::OldSlot) => 0 <= slot_named(vote) < ctx.first_non_finalized_slot.0,
            Some(VoteDrop::TooFarAhead) => ctx.too_far_ahead,
            Some(VoteDrop::InvalidSignature) => !ctx.signature_valid,
            Some(VoteDrop::Unreadable) => !ctx.readable,
            None => true,
        },
{
}

/// Votes for later slots are no worse: if a vote is counted, so is the same kind
/// of vote by the same validator for every slot from the first one that is not
/// final on, the rest being equal.
pub proof fn votes_for_later_slots_are_counted(
    source: ValidatorIndex,
    vote: UnsignedVote,
    later: UnsignedVote,
    ctx: VoteContext,
    desc: SessionDescription,
)
    requires
        vote_drop(source, vote, ctx, desc) is None,
        slot_named(later) >= ctx.first_non_finalized_slot.0,
    ensures
        vote_drop(source, later, ctx, desc) is None,
{
}

/// Whether the signatures come from different validators of the session, all
/// verify, and their signers weigh as much as a certificate needs.
pub open spec fn carried(
    wire: Seq<WireSignature>,
    valid: Seq<bool>,
    desc: SessionDescription,
) -> bool {
    &&& forall|i: int|
        0 <= i < wire.len() ==> (((#[trigger] wire[i]).who as u32) as int) < desc.weights().len()
    &&& forall|i: int, j: int|
        #![trigger wire[i], wire[j]]
        0 <= i < j < wire.len() ==> wire[i].who as u32 != wire[j].who as u32
    &&& forall|i: int| 0 <= i < wire.len() ==> #[trigger] valid[i]
    &&& weight_of(desc.weights(), signers(wire)) >= desc.threshold()
}

proof fn lemma_carried(wire: Seq<WireSignature>, valid: Seq<bool>, desc: SessionDescription)
    ensures
        carried(wire, valid, desc) <==> all_sound(wire, valid, desc.weights().len()) && weight_of(
            desc.weights(),
            signers(wire),
        ) >= desc.threshold(),
{
    let n = desc.weights().len();
    if carried(wire, valid, desc) {
        assert forall|i: int| 0 <= i < wire.len() implies #[trigger] fault_at(wire, valid, n, i)
            is None by {
            assert(signers(wire)[i].0 == wire[i].who as u32);
            assert forall|j: int| 0 <= j < i implies #[trigger] signers(wire)[j] != signers(
                wire,
            )[i] by {
                assert(wire[j].who as u32 != wire[i].who as u32);
            }
            assert(valid[i]);
        }
    }
    if all_sound(wire, valid, n) {
        assert forall|i: int| 0 <= i < wire.len() implies (((#[trigger] wire[i]).who as u32) as int)
            < n && valid[i] by {
            assert(fault_at(wire, valid, n, i) is None);
        }
        assert forall|i: int| 0 <= i < wire.len() implies #[trigger] valid[i] by {
            assert(fault_at(wire, valid, n, i) is None);
        }
        assert forall|i: int, j: int|
            #![trigger wire[i], wire[j]]
            0 <= i < j < wire.len() implies wire[i].who as u32 != wire[j].who as u32 by {
            assert(fault_at(wire, valid, n, j) is None);
            assert(signers(wire)[i] != signers(wire)[j]);
        }
    }
}

/// A certificate is dropped before its signatures are looked at exactly if its
/// slot is below the first one that is not final or its sender is no validator
/// of the session; as one for an old slot only if its slot is below the first one
/// that is not final.
pub proof fn certificates_are_dropped_for_a_reason(
    source: ValidatorIndex,
    vote: UnsignedVote,
    first_non_finalized_slot: SlotIndex,
    desc: SessionDescription,
)
    ensures
        certificate_drop(source, vote, first_non_finalized_slot, desc) is None <==> {
            &&& (source.0 as int) < desc.weights().len()
            &&& slot_named(vote) >= first_non_finalized_slot.0
        },
        match certificate_drop(source, vote, first_non_finalized_slot, desc) {
            Some(CertificateDrop::NegativeSlot) => slot_named(vote) < 0,
            Some(CertificateDrop::InvalidSource) => source.0 as int >= desc.weights().len(),
            Some(CertificateDrop::OldSlot) => 0 <= slot_named(vote) < first_non_finalized_slot.0,
            Some(CertificateDrop::Unverified(_)) => false,
            None => true,
        },
{
}

/// A certificate for any slot at or above the first one that is not final is
/// taken in if a validator of the session sent it, its vote can be read, and its
/// signatures come from different validators, all verify and weigh enough:
/// nothing speaks against it, whatever certifying it gives is the certificate of
/// that vote with these signatures, and no other certificate is taken in.
pub proof fn good_certificates_are_taken_in(
    source: ValidatorIndex,
    arrived: ArrivedCertificate,
    first_non_finalized_slot: SlotIndex,
    desc: SessionDescription,
    r: Result<Certificate<Vote>, CertificateError>,
)
    requires
        arrived.readable_vote is Some,
        certified(
            r,
            arrived.readable_vote->Some_0,
            arrived.signatures@,
            arrived.valid@,
            desc,
        ),
        (source.0 as int) < desc.weights().len(),
        slot_named(arrived.vote) >= first_non_finalized_slot.0,
    ensures
        certificate_drop(source, arrived.vote, first_non_finalized_slot, desc) is None,
        r is Ok <==> carried(arrived.signatures@, arrived.valid@, desc),
        r matches Ok(cert) ==> {
            &&& cert.vote == arrived.readable_vote->Some_0
            &&& cert.signatures@.len() == arrived.signatures@.len()
            &&& forall|i: int|
                0 <= i < cert.signatures@.len() ==> {
                    let sig = #[trigger] cert.signatures@[i];
                    &&& sig.validator_idx.0 == arrived.signatures@[i].who as u32
                    &&& sig.signature@ == arrived.signatures@[i].signature@
                }
        },
{
    lemma_carried(arrived.signatures@, arrived.valid@, desc);
    if let Ok(cert) = r {
        assert forall|i: int| 0 <= i < cert.signatures@.len() implies {
            let sig = #[trigger] cert.signatures@[i];
            &&& sig.validator_idx.0 == arrived.signatures@[i].who as u32
            &&& sig.signature@ == arrived.signatures@[i].signature@
        } by {
            assert(cert.signatures@[i]@ == crate::certificate::arrived(arrived.signatures@[i]));
        }
    } else {
        let n = desc.weights().len();
        let e = r->Err_0;
        if crate::certificate::first_fault(arrived.signatures@, arrived.valid@, n, e) {
            let i = choose|i: int|
                0 <= i < arrived.signatures@.len() && #[trigger] fault_at(
                    arrived.signatures@,
                    arrived.valid@,
                    n,
                    i,
                ) == Some(e);
            assert(!all_sound(arrived.signatures@, arrived.valid@, n));
        }
    }
}

/// What a counted vote leads to: one that is applied is stored as it came, and the
/// candidate that it names is asked for exactly if the book has no body of it.
/// A vote that is reported as misbehavior adds one report, on the validator that
/// sent it, and every other vote leaves the state as it is. Only votes that are
/// applied are stored or ask for anything.
pub proof fn applied_votes_are_stored(
    s: ConsensusView,
    source: ValidatorIndex,
    vote: UnsignedVote,
    raw_vote: Seq<u8>,
    result: VoteResult,
    book: BookView,
    report: VoteReport,
)
    requires
        vote_report(report, vote, raw_vote, result, book),
        slot_named(vote) >= 0,
    ensures
        report.save is Some <==> result is Applied,
        report.save matches Some(saved) ==> saved@ == raw_vote,
        report.request is Some ==> result is Applied,
        report.request matches Some(id) ==> {
            &&& id.slot.0 == slot_named(vote)
            &&& !(vote is Skip)
            &&& vote matches UnsignedVote::Notarize(named) ==> id.hash == named.hash
            &&& vote matches UnsignedVote::Finalize(named) ==> id.hash == named.hash
            &&& !book.received.dom().contains(id)
                || book.received[id].candidate_hash_data_bytes.len() == 0
        },
        forall|id: RawCandidateId|
            #![trigger book.received.dom().contains(id)]
            result is Applied && id.slot.0 == slot_named(vote) && {
                ||| vote matches UnsignedVote::Notarize(named) && named.hash == id.hash
                ||| vote matches UnsignedVote::Finalize(named) && named.hash == id.hash
            } && (!book.received.dom().contains(id)
                || book.received[id].candidate_hash_data_bytes.len() == 0) ==> report.request
                == Some(id),
        report.applied <==> result is Applied,
        report.misbehavior <==> result is Misbehavior,
        report.counted is Some,
        report.counted == Some(VoteKind::Notarize) <==> vote is Notarize,
        report.counted == Some(VoteKind::Finalize) <==> vote is Finalize,
        report.counted == Some(VoteKind::Skip) <==> vote is Skip,
        ({
            let t = after_vote(s, source, result);
            &&& !(result is Misbehavior) ==> t == s
            &&& result is Misbehavior ==> {
                &&& t.reports.len() == s.reports.len() + 1
                &&& t.reports.drop_last() == s.reports
                &&& t.reports.last().validator_idx == source
                &&& t.reports.last().proof == result->Misbehavior_0
                &&& t == (ConsensusView { reports: t.reports, ..s })
            }
        }),
{
    let t = after_vote(s, source, result);
    if result is Misbehavior {
        assert(t.reports.drop_last() =~= s.reports);
    }
}

/// The larger of two seqnos, where none counts as zero.
pub open spec fn at_least(cursor: Option<u32>, seqno: u32) -> int {
    let old = match cursor {
        Some(n) => n as int,
        None => 0,
    };
    if old >= seqno {
        old
    } else {
        seqno as int
    }
}

/// What applying the finalization of one candidate does. The candidate is finalized.
/// Of a candidate with a block of its own the highest finalized seqno and the
/// accepted seqno move up to the block's, never back; one without moves neither, nor
/// what is known of splits. The production cursor moves up to the seqno in either
/// case. The head becomes the candidate's slot and block exactly if there is none
/// yet, its seqno is past the highest one, or it is that one in a slot not
/// earlier. What was delivered, what waits and what the masterchain registered are
/// not touched.
pub proof fn applied_finalization_moves_the_heads(
    s: ConsensusView,
    id: RawCandidateId,
    rec: ReceivedView,
)
    ensures
        ({
            let t = applied_state(s, id, rec);
            let seqno = rec.block_id.seq_no;
            let leads = s.head_slot is None || seqno > or_zero(s.head_seqno) || (seqno == or_zero(
                s.head_seqno,
            ) && rec.slot.0 >= s.head_slot->Some_0.0);
            &&& forall|x: RawCandidateId| #[trigger]
                t.finalized.contains(x) <==> x == id || s.finalized.contains(x)
            &&& !rec.is_empty ==> or_zero(t.head_seqno) == at_least(s.head_seqno, seqno)
            &&& rec.is_empty ==> t.head_seqno == s.head_seqno
            &&& or_zero(t.last_consensus) == at_least(s.last_consensus, seqno)
            &&& !rec.is_empty ==> t.accepted_seqno == at_least(Some(s.accepted_seqno), seqno)
            &&& rec.is_empty ==> t.accepted_seqno == s.accepted_seqno && t.accepted_block
                == s.accepted_block
            &&& !rec.is_empty ==> (t.accepted_block == Some(rec.block_id) || (t.accepted_block
                == s.accepted_block && s.accepted_block is Some))
            &&& leads ==> t.head_slot == Some(rec.slot) && t.head_block == Some(rec.block_id)
            &&& !leads ==> t.head_slot == s.head_slot && t.head_block == s.head_block
            &&& leads && !rec.is_empty ==> t.head_before_split == (rec.before_split == Some(true))
            &&& !leads || rec.is_empty ==> t.head_before_split == s.head_before_split
                && t.before_split == s.before_split
            &&& leads && !rec.is_empty ==> (rec.before_split matches Some(flag)
                ==> t.before_split.dom().contains(rec.block_id) && t.before_split[rec.block_id]
                == flag)
            &&& forall|b: BlockIdExt| #[trigger]
                s.before_split.dom().contains(b) && b != rec.block_id
                    ==> t.before_split.dom().contains(b) && t.before_split[b] == s.before_split[b]
            &&& t.sent == s.sent && t.sent_seqno == s.sent_seqno
            &&& t.pending == s.pending && t.last_mc == s.last_mc && t.reports == s.reports
        }),
{
}

/// A candidate is not behind the head that replaced it: of two blocks with seqnos of
/// their own, applied in either order to a session without a head, the one with
/// the larger seqno ends up as the head, and the cursors are the same.
pub proof fn head_does_not_depend_on_order(
    s: ConsensusView,
    a: RawCandidateId,
    first: ReceivedView,
    b: RawCandidateId,
    second: ReceivedView,
)
    requires
        s.head_slot is None,
        s.head_seqno is None,
        !first.is_empty,
        !second.is_empty,
        0 < first.block_id.seq_no < second.block_id.seq_no,
    ensures
        ({
            let t = applied_state(applied_state(s, a, first), b, second);
            let u = applied_state(applied_state(s, b, second), a, first);
            &&& t.head_seqno == u.head_seqno && t.head_seqno == Some(second.block_id.seq_no)
            &&& t.head_block == u.head_block && t.head_block == Some(second.block_id)
            &&& t.head_slot == u.head_slot && t.head_slot == Some(second.slot)
            &&& or_zero(t.last_consensus) == or_zero(u.last_consensus)
            &&& t.accepted_seqno == u.accepted_seqno
        }),
{
}

/// The accepted head after a block was accepted: its seqno is the larger one; its block
/// is the accepted one if there was none, if the one before has a smaller seqno or
/// comes before it, and else the one before, unless that is below the new seqno.
pub proof fn accepted_head_is_the_later_block(
    head: (u32, Option<BlockIdExt>),
    block: BlockIdExt,
)
    ensures
        ({
            let next = accepted_with_block(head, block);
            &&& next.0 == at_least(Some(head.0), block.seq_no)
            &&& next.1 is Some
            &&& head.1 is None ==> next.1 == Some(block)
            &&& head.1 matches Some(b) ==> {
                let passed = block.seq_no > head.0 && b.seq_no < block.seq_no;
                &&& passed || b.before(block) ==> next.1 == Some(block)
                &&& !passed && !b.before(block) ==> next.1 == Some(b)
            }
        }),
{
}

/// What a block that the masterchain registered does: one of another shard nothing;
/// one of the session's own moves the registered seqno, the production cursor and the
/// accepted seqno up to its own, never back, and nothing else but the block of the
/// accepted head. That is then the registered block if it is the first one or has a
/// larger seqno than the one before, unless it has the seqno zero.
pub proof fn registered_blocks_move_the_cursors(
    s: ConsensusView,
    top: BlockIdExt,
    desc: SessionDescription,
)
    ensures
        ({
            let t = after_applied_top(s, top, desc);
            &&& top.shard_id != desc.shard_ident() ==> t == s
            &&& top.shard_id == desc.shard_ident() ==> {
                &&& t.last_mc == Some(at_least(s.last_mc, top.seq_no) as u32)
                &&& or_zero(t.last_consensus) == at_least(s.last_consensus, or_zero(t.last_mc))
                &&& t.last_consensus is Some
                &&& t.accepted_seqno == at_least(Some(s.accepted_seqno), top.seq_no)
                &&& top.seq_no > s.accepted_seqno && (s.accepted_block matches Some(b) ==> b.seq_no
                    < top.seq_no) ==> t.accepted_block == Some(top)
                &&& top.seq_no > 0 && s.accepted_block is None ==> t.accepted_block == Some(top)
                &&& t.accepted_block == s.accepted_block || t.accepted_block == Some(top)
                &&& top.seq_no == 0 ==> t.accepted_block == s.accepted_block
                &&& t == (ConsensusView {
                    last_mc: t.last_mc,
                    last_consensus: t.last_consensus,
                    accepted_seqno: t.accepted_seqno,
                    accepted_block: t.accepted_block,
                    ..s
                })
            }
        }),
{
}

/// A block is handed over as the book has it, in no round, with the signatures of the
/// finalization, which sign the finalized candidate, where that stands for the
/// block, and else with those of its own notarization, which sign its own
/// candidate. All signatures of the certificate go along, in order and whole.
pub proof fn delivered_blocks_carry_their_signatures(
    inputs: FinalizationInputs,
    trigger: RawCandidateId,
    final_sigs: Seq<VoteSignature>,
    report: WalkReport,
    before: BackendCalls,
    after: BackendCalls,
    i: int,
)
    requires
        calls_match(
            before,
            after,
            report.writes@,
            report.deliveries@,
            inputs,
            trigger,
            final_sigs,
        ),
        0 <= i < report.deliveries@.len(),
    ensures
        ({
            let e = report.deliveries@[i];
            let rec = inputs.book@.received[e.id];
            let cb = after.handed[before.handed.len() + i].0;
            let sigs = if e.is_final {
                final_sigs
            } else {
                inputs.notar_certs@[e.id].signatures@
            };
            &&& after.handed[before.handed.len() + i].1 == e.ok
            &&& cb.block_id == rec.block_id && cb.root_hash == rec.root_hash && cb.file_hash
                == rec.file_hash
            &&& cb.data@ == rec.data
            &&& cb.source.source_idx == rec.source_idx
            &&& cb.signatures.is_final == e.is_final
            &&& e.is_final ==> cb.signatures.slot == trigger.slot && (
            inputs.book@.received.dom().contains(trigger) ==> cb.signatures.hash_data@
                == inputs.book@.received[trigger].candidate_hash_data_bytes)
            &&& !e.is_final ==> cb.signatures.slot == rec.slot && cb.signatures.hash_data@
                == rec.candidate_hash_data_bytes
            &&& cb.signatures.pairs@.len() == sigs.len()
            &&& forall|k: int|
                0 <= k < sigs.len() ==> {
                    let pair = #[trigger] cb.signatures.pairs@[k];
                    &&& pair.validator_idx == sigs[k].validator_idx
                    &&& sigs[k].signature@.len() >= 64 ==> pair.r@ + pair.s@
                        == sigs[k].signature@.take(64)
                }
            &&& after.stored == before.stored + report.writes@
        }),
{
    let e = report.deliveries@[i];
    let rec = inputs.book@.received[e.id];
    let h = after.handed[before.handed.len() + i];
    assert(is_handed(h, e, inputs, trigger, final_sigs));
    let sigs = if e.is_final {
        final_sigs
    } else {
        inputs.notar_certs@[e.id].signatures@
    };
    assert forall|k: int| 0 <= k < sigs.len() implies {
        let pair = #[trigger] h.0.signatures.pairs@[k];
        &&& pair.validator_idx == sigs[k].validator_idx
        &&& sigs[k].signature@.len() >= 64 ==> pair.r@ + pair.s@ == sigs[k].signature@.take(64)
    } by {
        let pair = h.0.signatures.pairs@[k];
        if sigs[k].signature@.len() >= 64 {
            assert(pair.r@ + pair.s@ =~= sigs[k].signature@.take(64));
        }
    }
}

/// What became of the waiting finalizations `waiting`, of which `left` wait on, when
/// those among `ids` were followed with these reports.
pub open spec fn wait_on(
    waiting: Map<RawCandidateId, FinalizedEntry>,
    left: Map<RawCandidateId, FinalizedEntry>,
    ids: Seq<RawCandidateId>,
    reports: Seq<(RawCandidateId, WalkReport)>,
    id: RawCandidateId,
) -> bool {
    let broke = exists|i: int| 0 <= i < reports.len() && (#[trigger] reports[i]).1.end is Breach;
    let over = exists|i: int|
        0 <= i < reports.len() && (#[trigger] reports[i]).0 == id && (reports[i].1.end is Complete
            || reports[i].1.end is TooDeep || reports[i].1.end is Cycle);
    &&& forall|i: int|
        0 <= i < reports.len() ==> ids.contains((#[trigger] reports[i]).0)
            && waiting.dom().contains(reports[i].0)
    &&& broke ==> left == waiting
    &&& !broke ==> (left.dom().contains(id) <==> waiting.dom().contains(id) && !over)
    &&& left.dom().contains(id) ==> left[id] == waiting[id]
    &&& !broke && ids.contains(id) && waiting.dom().contains(id) ==> exists|i: int|
        0 <= i < reports.len() && (#[trigger] reports[i]).0 == id
}

proof fn lemma_reports_in_turn(
    s: ConsensusView,
    ids: Seq<RawCandidateId>,
    inputs: FinalizationInputs,
    reports: Seq<(RawCandidateId, WalkReport)>,
    t: ConsensusView,
)
    requires
        retried(s, ids, inputs, reports, t),
    ensures
        ({
            let due = ids.filter(|id: RawCandidateId| s.pending.dom().contains(id));
            let broke = reports.len() > 0 && reports.last().1.end is Breach;
            &&& reports.len() <= due.len()
            &&& forall|i: int| 0 <= i < reports.len() ==> (#[trigger] reports[i]).0 == due[i]
            &&& forall|i: int|
                0 <= i < reports.len() - 1 ==> !((#[trigger] reports[i]).1.end is Breach)
            &&& broke || reports.len() == due.len()
            &&& broke ==> t.pending == s.pending
            &&& !broke ==> t.pending == kept(
                s.pending,
                |id: RawCandidateId| !settled_ids(reports).contains(id),
            )
        }),
{
}

proof fn lemma_filter_keeps(
    ids: Seq<RawCandidateId>,
    keep: spec_fn(RawCandidateId) -> bool,
    i: int,
)
    requires
        0 <= i < ids.filter(keep).len(),
    ensures
        ids.contains(ids.filter(keep)[i]),
    decreases ids.len(),
{
    reveal(Seq::filter);
    if ids.len() > 0 {
        let rest = ids.drop_last();
        if i < rest.filter(keep).len() {
            lemma_filter_keeps(rest, keep, i);
            let k = choose|k: int| 0 <= k < rest.len() && rest[k] == rest.filter(keep)[i];
            assert(ids[k] == rest[k]);
        } else {
            assert(ids[ids.len() - 1] == ids.filter(keep)[i]);
        }
    }
}

proof fn lemma_wait_on(
    waiting: Map<RawCandidateId, FinalizedEntry>,
    left: Map<RawCandidateId, FinalizedEntry>,
    ids: Seq<RawCandidateId>,
    reports: Seq<(RawCandidateId, WalkReport)>,
    id: RawCandidateId,
)
    requires
        ({
            let due = ids.filter(|id: RawCandidateId| waiting.dom().contains(id));
            let broke = reports.len() > 0 && reports.last().1.end is Breach;
            &&& reports.len() <= due.len()
            &&& forall|i: int| 0 <= i < reports.len() ==> (#[trigger] reports[i]).0 == due[i]
            &&& forall|i: int|
                0 <= i < reports.len() - 1 ==> !((#[trigger] reports[i]).1.end is Breach)
            &&& broke || reports.len() == due.len()
            &&& broke ==> left == waiting
            &&& !broke ==> left == kept(
                waiting,
                |id: RawCandidateId| !settled_ids(reports).contains(id),
            )
        }),
    ensures
        wait_on(waiting, left, ids, reports, id),
{
    let waits = |x: RawCandidateId| waiting.dom().contains(x);
    let due = ids.filter(waits);
    assert forall|i: int| 0 <= i < reports.len() implies ids.contains((#[trigger] reports[i]).0)
        && waiting.dom().contains(reports[i].0) by {
        assert(reports[i].0 == due[i]);
        lemma_filter_keeps(ids, waits, i);
        ids.lemma_filter_pred(waits, i);
    }
    let broke = exists|i: int| 0 <= i < reports.len() && (#[trigger] reports[i]).1.end is Breach;
    if broke {
        let i = choose|i: int| 0 <= i < reports.len() && (#[trigger] reports[i]).1.end is Breach;
        assert(i == reports.len() - 1);
    } else if reports.len() > 0 {
        assert(!(reports[reports.len() - 1].1.end is Breach));
    }
    if !broke && ids.contains(id) && waiting.dom().contains(id) {
        let k = choose|k: int| 0 <= k < ids.len() && ids[k] == id;
        ids.lemma_filter_contains(waits, k);
        let i = choose|i: int| 0 <= i < due.len() && due[i] == id;
        assert(reports[i].0 == due[i]);
    }
}

/// Every waiting finalization that was to be followed is, in turn, up to one that
/// breaks off. If none does, a finalization waits no more exactly if its walk is
/// complete, too deep or on a cycle, and else waits on with its certificate; if
/// one does, all wait on.
pub proof fn unsettled_finalizations_wait_on(
    s: ConsensusView,
    ids: Seq<RawCandidateId>,
    inputs: FinalizationInputs,
    reports: Seq<(RawCandidateId, WalkReport)>,
    t: ConsensusView,
    id: RawCandidateId,
)
    requires
        retried(s, ids, inputs, reports, t),
    ensures
        wait_on(s.pending, t.pending, ids, reports, id),
{
    lemma_reports_in_turn(s, ids, inputs, reports, t);
    lemma_wait_on(s.pending, t.pending, ids, reports, id);
}

/// What follows from a notarization: the candidate is asked for exactly if the book
/// has no body of it, and observed exactly if the book has it with a block of its
/// own, which is then handed on as the book has it.
pub proof fn notarized_candidates_are_observed(
    r: NotarizationReport,
    id: RawCandidateId,
    book: BookView,
    local: ValidatorIndex,
)
    requires
        is_notarization_report(r, id, book, local),
    ensures
        r.request <==> !book.received.dom().contains(id)
            || book.received[id].candidate_hash_data_bytes.len() == 0,
        r.observed is Some <==> book.received.dom().contains(id) && !book.received[id].is_empty,
        r.observed matches Some(o) ==> {
            &&& o.block_id == book.received[id].block_id
            &&& o.data@ == book.received[id].data && o.collated_data@
                == book.received[id].collated_data
            &&& o.local_collated <==> book.received[id].source_idx == local
        },
{
}

/// Signatures can stand under a block exactly if there are some, validators of the
/// session made them, they have all their bytes and weigh enough together.
pub proof fn deliverable_signatures_weigh_enough(
    sigs: Seq<VoteSignature>,
    desc: SessionDescription,
)
    requires
        weight_of(desc.weights(), crate::certificate::voters(sigs)) <= u64::MAX,
    ensures
        deliverable(sigs, desc) <==> {
            &&& sigs.len() > 0
            &&& forall|i: int|
                0 <= i < sigs.len() ==> (((#[trigger] sigs[i]).validator_idx.0) as int)
                    < desc.weights().len() && sigs[i].signature@.len() >= 64
            &&& weight_of(desc.weights(), crate::certificate::voters(sigs)) >= desc.threshold()
        },
{
}

/// Whether entry `i` of `writes` was stored for a candidate of `slot`.
pub open spec fn stored_in(
    writes: Seq<(FinalizedBlockRecord, bool)>,
    received: Map<RawCandidateId, ReceivedView>,
    slot: SlotIndex,
    i: int,
) -> bool {
    0 <= i < writes.len() && writes[i].1 && received[writes[i].0.candidate_id].slot == slot
}

/// Whether the last candidate that was stored is one of `slot`.
pub open spec fn stored_last(
    writes: Seq<(FinalizedBlockRecord, bool)>,
    received: Map<RawCandidateId, ReceivedView>,
    slot: SlotIndex,
) -> bool {
    exists|i: int|
        #[trigger] stored_in(writes, received, slot, i) && forall|j: int|
            i < j < writes.len() ==> !(#[trigger] writes[j]).1
}

/// What the cursors of a walk's state `w` owe to what it stored.
spec fn cursors_follow(s: ConsensusView, w: WalkState, env: WalkEnv) -> bool {
    let received = env.book.received;
    &&& forall|i: int|
        0 <= i < w.writes.len() && (#[trigger] w.writes[i]).1 ==> {
            let rec = received[w.writes[i].0.candidate_id];
            let seqno = rec.block_id.seq_no;
            &&& seqno <= or_zero(w.s.last_consensus)
            &&& !rec.is_empty ==> seqno <= or_zero(w.s.head_seqno) && seqno <= w.s.accepted_seqno
        }
    &&& w.s.head_seqno == s.head_seqno || exists|i: int|
        0 <= i < w.writes.len() && (#[trigger] w.writes[i]).1
            && !received[w.writes[i].0.candidate_id].is_empty && w.s.head_seqno == Some(
            received[w.writes[i].0.candidate_id].block_id.seq_no,
        )
    &&& w.s.last_consensus == s.last_consensus || exists|i: int|
        0 <= i < w.writes.len() && (#[trigger] w.writes[i]).1 && w.s.last_consensus == Some(
            received[w.writes[i].0.candidate_id].block_id.seq_no,
        )
    &&& or_zero(w.s.head_seqno) >= or_zero(s.head_seqno)
    &&& or_zero(w.s.last_consensus) >= or_zero(s.last_consensus)
    &&& forall|slot: SlotIndex| #[trigger]
        w.resets.contains(slot) <==> env.progressed.contains(slot) && exists|i: int| #[trigger]
            stored_in(w.writes, received, slot, i)
    &&& forall|slot: SlotIndex| #[trigger]
        w.firsts.contains(slot) <==> !env.noted.contains(slot) && exists|i: int|
            0 <= i < w.writes.len() && received[(#[trigger] w.writes[i]).0.candidate_id].slot
                == slot
    &&& w.firsts.no_duplicates()
    &&& w.last_finalized is None <==> forall|i: int|
        0 <= i < w.writes.len() ==> !(#[trigger] w.writes[i]).1
    &&& w.last_finalized matches Some(slot) ==> stored_last(w.writes, received, slot)
}

proof fn lemma_push_contains(slots: Seq<SlotIndex>, slot: SlotIndex)
    ensures
        forall|x: SlotIndex| #[trigger]
            slots.push(slot).contains(x) <==> x == slot || slots.contains(x),
        !slots.contains(slot) && slots.no_duplicates() ==> slots.push(slot).no_duplicates(),
{
    let longer = slots.push(slot);
    assert forall|x: SlotIndex| #[trigger] longer.contains(x) <==> x == slot || slots.contains(
        x,
    ) by {
        if slots.contains(x) {
            let i = choose|i: int| 0 <= i < slots.len() && slots[i] == x;
            assert(longer[i] == x);
        }
        if x == slot {
            assert(longer[slots.len() as int] == x);
        }
        if longer.contains(x) && x != slot {
            let i = choose|i: int| 0 <= i < longer.len() && longer[i] == x;
            assert(slots[i] == x);
        }
    }
}

#[verifier::rlimit(40)]
proof fn lemma_applied_cursors(
    s: ConsensusView,
    w: WalkState,
    id: RawCandidateId,
    has_final_cert: bool,
    env: WalkEnv,
)
    requires
        cursors_follow(s, w, env),
    ensures
        cursors_follow(
            s,
            walk_applied(w, id, env.book.received[id], has_final_cert, env).0,
            env,
        ),
{
    let received = env.book.received;
    let rec = received[id];
    let v = walk_applied(w, id, rec, has_final_cert, env).0;
    if to_apply(w.s, id, rec) {
        let m = w.writes.len() as int;
        let last = v.writes[m];
        assert(v.writes =~= w.writes.push(last));
        assert(last.0.candidate_id == id);
        assert forall|i: int| 0 <= i < m implies #[trigger] v.writes[i] == w.writes[i] by {}
        lemma_push_contains(w.firsts, rec.slot);
        lemma_push_contains(w.resets, rec.slot);
        assert forall|slot: SlotIndex, i: int| 0 <= i < m implies (#[trigger] stored_in(
            v.writes,
            received,
            slot,
            i,
        ) <==> stored_in(w.writes, received, slot, i)) by {
            assert(v.writes[i] == w.writes[i]);
        }
        if w.s.head_seqno != s.head_seqno {
            let i = choose|i: int|
                0 <= i < w.writes.len() && (#[trigger] w.writes[i]).1
                    && !received[w.writes[i].0.candidate_id].is_empty && w.s.head_seqno == Some(
                    received[w.writes[i].0.candidate_id].block_id.seq_no,
                );
            assert(v.writes[i] == w.writes[i]);
        }
        if w.s.last_consensus != s.last_consensus {
            let i = choose|i: int|
                0 <= i < w.writes.len() && (#[trigger] w.writes[i]).1 && w.s.last_consensus == Some(
                    received[w.writes[i].0.candidate_id].block_id.seq_no,
                );
            assert(v.writes[i] == w.writes[i]);
        }
        assert forall|slot: SlotIndex| #[trigger]
            v.resets.contains(slot) <==> env.progressed.contains(slot) && exists|i: int| #[trigger]
                stored_in(v.writes, received, slot, i) by {
            if exists|i: int| #[trigger] stored_in(w.writes, received, slot, i) {
                let i = choose|i: int| #[trigger] stored_in(w.writes, received, slot, i);
                assert(stored_in(v.writes, received, slot, i));
            }
            if last.1 && slot == rec.slot {
                assert(stored_in(v.writes, received, slot, m));
            }
            if exists|i: int| #[trigger] stored_in(v.writes, received, slot, i) {
                let i = choose|i: int| #[trigger] stored_in(v.writes, received, slot, i);
                if i < m {
                    assert(stored_in(w.writes, received, slot, i));
                }
            }
        }
        assert forall|slot: SlotIndex| #[trigger]
            v.firsts.contains(slot) <==> !env.noted.contains(slot) && exists|i: int|
                0 <= i < v.writes.len() && received[(#[trigger] v.writes[i]).0.candidate_id].slot
                    == slot by {
            if exists|i: int|
                0 <= i < w.writes.len() && received[(#[trigger] w.writes[i]).0.candidate_id].slot
                    == slot {
                let i = choose|i: int|
                    0 <= i < w.writes.len() && received[(
                    #[trigger] w.writes[i]).0.candidate_id].slot == slot;
                assert(v.writes[i] == w.writes[i]);
            }
            if slot == rec.slot {
                assert(received[v.writes[m].0.candidate_id].slot == slot);
            }
            if exists|i: int|
                0 <= i < v.writes.len() && received[(#[trigger] v.writes[i]).0.candidate_id].slot
                    == slot {
                let i = choose|i: int|
                    0 <= i < v.writes.len() && received[(
                    #[trigger] v.writes[i]).0.candidate_id].slot == slot;
                if i < m {
                    assert(received[w.writes[i].0.candidate_id].slot == slot);
                }
            }
        }
        if last.1 {
            assert(v.writes[m].1);
            assert(v.last_finalized == Some(rec.slot));
            assert(stored_in(v.writes, received, rec.slot, m));
            assert(stored_last(v.writes, received, rec.slot));
        } else if w.last_finalized is Some {
            let slot = w.last_finalized->Some_0;
            let i = choose|i: int|
                #[trigger] stored_in(w.writes, received, slot, i) && forall|j: int|
                    i < j < w.writes.len() ==> !(#[trigger] w.writes[j]).1;
            assert(stored_in(v.writes, received, slot, i));
            assert(v.writes[i].1);
            assert forall|j: int| i < j < v.writes.len() implies !(#[trigger] v.writes[j]).1 by {
                if j < m {
                    assert(!w.writes[j].1);
                }
            }
            assert(stored_last(v.writes, received, slot));
        } else {
            assert forall|i: int| 0 <= i < v.writes.len() implies !(#[trigger] v.writes[i]).1 by {
                if i < m {
                    assert(!w.writes[i].1);
                }
            }
        }
    }
}

proof fn lemma_step_cursors(
    s: ConsensusView,
    w: WalkState,
    id: RawCandidateId,
    has_final_cert: bool,
    env: WalkEnv,
)
    requires
        cursors_follow(s, w, env),
    ensures
        cursors_follow(s, walk_step(w, id, has_final_cert, env).0, env),
{
    let v = walk_step(w, id, has_final_cert, env).0;
    let rec = env.book.received[id];
    let applied = walk_applied(w, id, rec, has_final_cert, env).0;
    lemma_applied_cursors(s, w, id, has_final_cert, env);
    let base = if env.book.received.dom().contains(id) && !(env.masterchain && !has_final_cert)
        && rec.candidate_hash_data_bytes.len() > 0 {
        applied
    } else {
        w
    };
    assert(v.writes == base.writes && v.resets == base.resets && v.firsts == base.firsts);
    assert(v.last_finalized == base.last_finalized);
    assert(v.s.head_seqno == base.s.head_seqno && v.s.last_consensus == base.s.last_consensus);
    assert(v.s.accepted_seqno == base.s.accepted_seqno);
    assert(cursors_follow(s, base, env));
}

proof fn lemma_walk_cursors(
    s: ConsensusView,
    w: WalkState,
    id: RawCandidateId,
    has_final_cert: bool,
    visited: Set<RawCandidateId>,
    fuel: nat,
    env: WalkEnv,
)
    requires
        cursors_follow(s, w, env),
    ensures
        cursors_follow(s, walk(w, id, has_final_cert, visited, fuel, env).0, env),
    decreases fuel,
{
    if fuel > 0 && !visited.contains(id) {
        lemma_step_cursors(s, w, id, has_final_cert, env);
        let (v, r) = walk_step(w, id, has_final_cert, env);
        match r {
            Ok((next, cert)) => {
                lemma_walk_cursors(s, v, next, cert, visited.insert(id), (fuel - 1) as nat, env);
            },
            Err(_) => {},
        }
    }
}

/// After a walk no cursor is behind what the walk finalized, and none is ahead of it:
/// the highest finalized seqno is what it was, or that of a block that was stored;
/// the production cursor is what it was, or the seqno of a stored candidate; and
/// each is at least as high as all that was stored. The slots to be reset are those
/// that consensus is done with and that a candidate was stored for. The slots whose
/// first finalized candidate is now known are those that one was to be stored for
/// and that were not noted before, each once. And finalization last moved on in
/// the slot of the candidate that was stored last.
pub proof fn cursors_follow_finalization(
    s: ConsensusView,
    trigger: RawCandidateId,
    final_sigs: Seq<VoteSignature>,
    inputs: FinalizationInputs,
    report: WalkReport,
    t: ConsensusView,
)
    requires
        walked(s, trigger, final_sigs, inputs, report, t),
    ensures
        ({
            let received = inputs.book@.received;
            let writes = report.writes@;
            &&& forall|i: int|
                0 <= i < writes.len() && (#[trigger] writes[i]).1 ==> {
                    let rec = received[writes[i].0.candidate_id];
                    let seqno = rec.block_id.seq_no;
                    &&& seqno <= or_zero(t.last_consensus)
                    &&& !rec.is_empty ==> seqno <= or_zero(t.head_seqno) && seqno
                        <= t.accepted_seqno
                }
            &&& t.head_seqno == s.head_seqno || exists|i: int|
                0 <= i < writes.len() && (#[trigger] writes[i]).1
                    && !received[writes[i].0.candidate_id].is_empty && t.head_seqno == Some(
                    received[writes[i].0.candidate_id].block_id.seq_no,
                )
            &&& t.last_consensus == s.last_consensus || exists|i: int|
                0 <= i < writes.len() && (#[trigger] writes[i]).1 && t.last_consensus == Some(
                    received[writes[i].0.candidate_id].block_id.seq_no,
                )
            &&& forall|slot: SlotIndex| #[trigger]
                report.resets@.contains(slot) <==> inputs.progressed@.dom().contains(slot)
                    && exists|i: int| #[trigger] stored_in(writes, received, slot, i)
            &&& forall|slot: SlotIndex| #[trigger]
                report.firsts@.contains(slot) <==> !inputs.noted@.dom().contains(slot)
                    && exists|i: int|
                    0 <= i < writes.len() && received[(#[trigger] writes[i]).0.candidate_id].slot
                        == slot
            &&& report.firsts@.no_duplicates()
            &&& report.last_finalized is None <==> forall|i: int|
                0 <= i < writes.len() ==> !(#[trigger] writes[i]).1
            &&& report.last_finalized matches Some(slot) ==> stored_last(writes, received, slot)
        }),
{
    let env = inputs.env(
        trigger,
        final_sigs,
        worked(write_log(report.writes@)),
        worked(delivery_log(report.deliveries@)),
    );
    assert(cursors_follow(s, walk_start(s), env));
    lemma_walk_cursors(
        s,
        walk_start(s),
        trigger,
        true,
        Set::empty(),
        MAX_CHAIN_DEPTH as nat,
        env,
    );
}

/// What is done about a finalized candidate's block, in all cases. One without a block
/// of its own, or that counts as delivered, needs nothing. If its seqno is taken, then
/// by the same block, which needs no more than to be marked, or by another one, which
/// is a conflict. Of the others, on the masterchain those without the finalization
/// certificate, and elsewhere those below the registered seqno, are not delivered; a
/// block whose certificate is missing waits for it; and all others are delivered.
pub proof fn blocks_are_delivered_in_turn(
    s: ConsensusView,
    id: RawCandidateId,
    rec: ReceivedView,
    masterchain: bool,
    has_final_cert: bool,
    notarized: bool,
)
    ensures
        ({
            let verdict = emit_verdict(s, id, rec, masterchain, has_final_cert, notarized);
            let seqno = rec.block_id.seq_no;
            let done = rec.is_empty || s.sent.contains(id);
            let taken = s.sent_seqno.dom().contains(seqno);
            let wanted = if masterchain {
                has_final_cert
            } else {
                seqno >= (match s.last_mc {
                    Some(n) => n,
                    None => 0,
                })
            };
            &&& verdict is Nothing <==> done
            &&& verdict is SameBlock <==> !done && taken && s.sent_seqno[seqno].block_id
                == rec.block_id
            &&& verdict is Conflict <==> !done && taken && s.sent_seqno[seqno].block_id
                != rec.block_id
            &&& verdict matches EmitVerdict::Conflict(b) ==> b == s.sent_seqno[seqno].block_id
            &&& verdict is Suppressed <==> !done && !taken && !wanted
            &&& verdict is Deliver <==> !done && !taken && wanted && (has_final_cert || notarized)
        }),
{
}

/// Forgetting by slot keeps exactly the waiting finalizations and the delivered
/// candidates of slots from the given one on. What was delivered at a seqno, what was
/// finalized and all cursors stay: so a block is not delivered a second time because
/// its candidate was forgotten.
pub proof fn pruning_keeps_what_was_delivered(
    s: ConsensusView,
    slot: SlotIndex,
    id: RawCandidateId,
    rec: ReceivedView,
    masterchain: bool,
    has_final_cert: bool,
    notarized: bool,
)
    ensures
        ({
            let t = s.pruned(slot);
            &&& t.pending.dom().contains(id) <==> s.pending.dom().contains(id) && id.slot.0
                >= slot.0
            &&& t.pending.dom().contains(id) ==> t.pending[id] == s.pending[id]
            &&& t.sent.contains(id) <==> s.sent.contains(id) && id.slot.0 >= slot.0
            &&& t == (ConsensusView { pending: t.pending, sent: t.sent, ..s })
            &&& s.sent_seqno.dom().contains(rec.block_id.seq_no) ==> !(emit_verdict(
                t,
                id,
                rec,
                masterchain,
                has_final_cert,
                notarized,
            ) is Deliver)
        }),
{
}

/// Only our first vote to notarize a candidate of a slot is timed, from the start of the
/// slot on.
pub proof fn first_notarizations_are_timed(
    vote: Vote,
    notarized: bool,
    started_at: TimePoint,
    now: TimePoint,
)
    ensures
        ({
            let (slot, latency) = first_notarization(vote, notarized, started_at, now);
            &&& slot is Some <==> vote is Notarize && !notarized
            &&& slot matches Some(x) ==> x == vote->Notarize_0.slot
            &&& latency is Some ==> slot is Some
            &&& latency matches Some(d) ==> started_at.nanos + d.nanos == now.nanos
            &&& slot is Some && 0 <= now.nanos - started_at.nanos <= TIME_SPAN_MAX ==> latency
                is Some
        }),
{
}

/// Following all waiting finalizations follows each of them, those of earlier slots
/// first.
pub proof fn all_waiting_finalizations_are_followed(
    ids: Seq<RawCandidateId>,
    waiting: Map<RawCandidateId, FinalizedEntry>,
    id: RawCandidateId,
)
    requires
        lists_pending(ids, waiting),
    ensures
        ids.contains(id) <==> waiting.dom().contains(id),
        forall|i: int, j: int|
            0 <= i < j < ids.len() ==> ids[i] != ids[j] && ids[i].slot.0 <= ids[j].slot.0,
{
    assert(ids.contains(id) <==> ids.to_set().contains(id));
    assert forall|i: int, j: int| 0 <= i < j < ids.len() implies ids[i] != ids[j] && ids[i].slot.0
        <= ids[j].slot.0 by {
        assert(ids[i].rank() <= ids[j].rank());
        lemma_rank_is_by_slot(ids[i], ids[j]);
    }
}

proof fn lemma_rank_is_by_slot(a: RawCandidateId, b: RawCandidateId)
    requires
        a.rank() <= b.rank(),
    ensures
        a.slot.0 <= b.slot.0,
{
    assert(b.hash.as_nat()
        < 0x1_0000_0000_0000_0000_0000_0000_0000_0000_0000_0000_0000_0000_0000_0000_0000_0000);
}

/// What several walks store and deliver is what each of them does, in turn: of walks made
/// one after the other, first all of the earlier ones' and then all of the later
/// ones'.
pub proof fn walks_take_effect_in_turn(
    first: Seq<(RawCandidateId, WalkReport)>,
    second: Seq<(RawCandidateId, WalkReport)>,
)
    ensures
        all_writes(first + second) == all_writes(first) + all_writes(second),
        all_deliveries(first + second) == all_deliveries(first) + all_deliveries(second),
        second.len() == 1 ==> all_writes(second) == second[0].1.writes@,
        second.len() == 1 ==> all_deliveries(second).len() == second[0].1.deliveries@.len()
            && forall|i: int|
            0 <= i < second[0].1.deliveries@.len() ==> #[trigger] all_deliveries(second)[i] == (
                second[0].0,
                second[0].1.deliveries@[i],
            ),
    decreases second.len(),
{
    if second.len() == 0 {
        assert(first + second =~= first);
        assert(all_writes(first) + all_writes(second) =~= all_writes(first));
        assert(all_deliveries(first) + all_deliveries(second) =~= all_deliveries(first));
    } else {
        let rest = second.drop_last();
        walks_take_effect_in_turn(first, rest);
        assert((first + second).drop_last() =~= first + rest);
        assert((first + second).last() == second.last());
        assert(all_writes(first + second) =~= all_writes(first) + all_writes(second));
        assert(all_deliveries(first + second) =~= all_deliveries(first) + all_deliveries(second));
        if second.len() == 1 {
            assert(rest =~= Seq::<(RawCandidateId, WalkReport)>::empty());
            assert(all_writes(second) =~= second[0].1.writes@);
        }
    }
}

/// What a certificate that holds leads to: the candidate that it names is asked for
/// exactly if the book has no body of it; it is reported as accepted, with its slot and
/// kind, exactly if it is new, and as a conflict exactly if it contradicts another one.
/// A certificate that is dropped leads to nothing.
pub proof fn certificates_that_hold_take_effect(
    arrived: ArrivedCertificate,
    cert: Certificate<Vote>,
    outcome: StoreOutcome,
    book: BookView,
    d: CertificateDrop,
)
    requires
        slot_named(arrived.vote) >= 0,
    ensures
        ({
            let r = verified_certificate(arrived, cert, outcome, book);
            &&& r.verified && r.dropped is None
            &&& r.accepted is Some <==> outcome is New
            &&& r.accepted matches Some((slot, kind)) ==> match cert.vote {
                Vote::Notarize(v) => slot == v.slot && kind == VoteKind::Notarize,
                Vote::Finalize(v) => slot == v.slot && kind == VoteKind::Finalize,
                Vote::Skip(v) => slot == v.slot && kind == VoteKind::Skip,
            }
            &&& r.conflict <==> outcome is Conflict
            &&& match arrived.vote {
                UnsignedVote::Skip(_) => r.request is None,
                UnsignedVote::Notarize(named) | UnsignedVote::Finalize(named) => {
                    let id = RawCandidateId {
                        slot: SlotIndex(named.slot as u32),
                        hash: named.hash,
                    };
                    &&& id.slot.0 == slot_named(arrived.vote)
                    &&& r.request == (if book.received.dom().contains(id)
                        && book.received[id].candidate_hash_data_bytes.len() > 0 {
                        None
                    } else {
                        Some(id)
                    })
                },
            }
        }),
        ({
            let r = dropped_certificate(d);
            &&& !r.verified && r.dropped == Some(d)
            &&& r.request is None && r.accepted is None && !r.conflict
        }),
{
}

/// Whether what a walk logged so far is in the order of the chain.
spec fn logged_upwards(w: WalkState, n: nat, c: FinalChain) -> bool {
    &&& forall|i: int, j: int|
        #![trigger w.writes[i], w.writes[j]]
        0 <= i < j < w.writes.len() ==> c.leads_up(
            w.writes[i].0.candidate_id,
            w.writes[j].0.candidate_id,
            n,
        )
    &&& forall|i: int, j: int|
        #![trigger w.deliveries[i], w.deliveries[j]]
        0 <= i < j < w.deliveries.len() ==> c.leads_up(
            w.deliveries[i].id,
            w.deliveries[j].id,
            n,
        )
}

proof fn lemma_leads_up_longer(c: FinalChain, n: nat)
    ensures
        forall|a: RawCandidateId, b: RawCandidateId| #[trigger]
            c.leads_up(a, b, n) ==> c.leads_up(a, b, n + 1),
{
    assert forall|a: RawCandidateId, b: RawCandidateId| #[trigger]
        c.leads_up(a, b, n) implies c.leads_up(a, b, n + 1) by {
        let (k, l) = choose|k: nat, l: nat|
            k < l < n && #[trigger] c.at(k) == Some(a) && #[trigger] c.at(l) == Some(b);
        assert(k < l < n + 1 && c.at(k) == Some(a) && c.at(l) == Some(b));
    }
}

proof fn lemma_leads_up_here(
    c: FinalChain,
    a: RawCandidateId,
    is_final: bool,
    b: RawCandidateId,
    n: nat,
)
    requires
        c.holds(a, is_final, n),
        c.at(n) == Some(b),
    ensures
        c.leads_up(a, b, n + 1),
{
    let k = choose|k: nat|
        k < n && #[trigger] c.reaches(k) && c.at(k) == Some(a) && is_final == c.under_final(k);
    assert(k < n < n + 1 && c.at(k) == Some(a) && c.at(n) == Some(b));
}

/// Whether the logs of `v` are those of `w`, or go on with `id`.
spec fn goes_on_with(w: WalkState, v: WalkState, id: RawCandidateId) -> bool {
    &&& w.writes.len() <= v.writes.len() <= w.writes.len() + 1
    &&& forall|i: int| 0 <= i < w.writes.len() ==> #[trigger] v.writes[i] == w.writes[i]
    &&& v.writes.len() > w.writes.len() ==> v.writes.last().0.candidate_id == id
    &&& w.deliveries.len() <= v.deliveries.len() <= w.deliveries.len() + 1
    &&& forall|i: int| 0 <= i < w.deliveries.len() ==> #[trigger] v.deliveries[i]
        == w.deliveries[i]
    &&& v.deliveries.len() > w.deliveries.len() ==> v.deliveries.last().id == id
}

proof fn lemma_step_goes_on(w: WalkState, id: RawCandidateId, has_final_cert: bool, env: WalkEnv)
    ensures
        goes_on_with(w, walk_step(w, id, has_final_cert, env).0, id),
{
}

proof fn lemma_logs_upwards(
    w: WalkState,
    v: WalkState,
    id: RawCandidateId,
    n: nat,
    c: FinalChain,
)
    requires
        goes_on_with(w, v, id),
        logged_upwards(w, n, c),
        c.at(n) == Some(id),
        forall|i: int|
            0 <= i < w.writes.len() ==> c.holds(
                (#[trigger] w.writes[i]).0.candidate_id,
                w.writes[i].0.is_final,
                n,
            ),
        forall|i: int|
            0 <= i < w.deliveries.len() ==> c.holds(
                (#[trigger] w.deliveries[i]).id,
                w.deliveries[i].is_final,
                n,
            ),
    ensures
        logged_upwards(v, n + 1, c),
{
    lemma_leads_up_longer(c, n);
    assert forall|i: int, j: int|
        #![trigger v.writes[i], v.writes[j]]
        0 <= i < j < v.writes.len() implies c.leads_up(
        v.writes[i].0.candidate_id,
        v.writes[j].0.candidate_id,
        n + 1,
    ) by {
        assert(v.writes[i] == w.writes[i]);
        if j < w.writes.len() {
            assert(v.writes[j] == w.writes[j]);
            assert(c.leads_up(w.writes[i].0.candidate_id, w.writes[j].0.candidate_id, n));
        } else {
            let record = w.writes[i].0;
            lemma_leads_up_here(c, record.candidate_id, record.is_final, id, n);
        }
    }
    assert forall|i: int, j: int|
        #![trigger v.deliveries[i], v.deliveries[j]]
        0 <= i < j < v.deliveries.len() implies c.leads_up(
        v.deliveries[i].id,
        v.deliveries[j].id,
        n + 1,
    ) by {
        assert(v.deliveries[i] == w.deliveries[i]);
        if j < w.deliveries.len() {
            assert(v.deliveries[j] == w.deliveries[j]);
            assert(c.leads_up(w.deliveries[i].id, w.deliveries[j].id, n));
        } else {
            let e = w.deliveries[i];
            lemma_leads_up_here(c, e.id, e.is_final, id, n);
        }
    }
}

proof fn lemma_logged_longer(w: WalkState, n: nat, m: nat, c: FinalChain)
    requires
        logged_upwards(w, n, c),
        n <= m,
    ensures
        logged_upwards(w, m, c),
    decreases m - n,
{
    if n < m {
        lemma_leads_up_longer(c, n);
        lemma_logged_longer(w, n + 1, m, c);
    }
}

proof fn lemma_walk_logs_upwards(
    s: ConsensusView,
    w: WalkState,
    id: RawCandidateId,
    has_final_cert: bool,
    visited: Set<RawCandidateId>,
    fuel: nat,
    n: nat,
    env: WalkEnv,
    c: FinalChain,
)
    requires
        so_far(s, w, n, env, c),
        all_settled(s, w, n, c),
        logged_upwards(w, n, c),
        stands_at(id, has_final_cert, n, env, s, c),
        fuel + n == MAX_CHAIN_DEPTH,
    ensures
        logged_upwards(
            walk(w, id, has_final_cert, visited, fuel, env).0,
            MAX_CHAIN_DEPTH as nat,
            c,
        ),
    decreases fuel,
{
    if fuel == 0 {
    } else if visited.contains(id) {
        lemma_logged_longer(w, n, MAX_CHAIN_DEPTH as nat, c);
    } else {
        lemma_step_so_far(s, w, id, has_final_cert, n, env, c);
        lemma_step_goes_on(w, id, has_final_cert, env);
        let (v, r) = walk_step(w, id, has_final_cert, env);
        lemma_logs_upwards(w, v, id, n, c);
        match r {
            Ok((next, cert)) => {
                let seen = visited.insert(id);
                lemma_walk_logs_upwards(s, v, next, cert, seen, (fuel - 1) as nat, n + 1, env, c);
            },
            Err(_) => {
                lemma_logged_longer(v, n + 1, MAX_CHAIN_DEPTH as nat, c);
            },
        }
    }
}

/// A walk goes up the chain, from the finalized candidate on: what it stores and what it
/// delivers comes in the order of the chain, each candidate before its ancestors.
pub proof fn walks_go_up_the_chain(
    s: ConsensusView,
    trigger: RawCandidateId,
    final_sigs: Seq<VoteSignature>,
    inputs: FinalizationInputs,
    report: WalkReport,
    t: ConsensusView,
)
    requires
        walked(s, trigger, final_sigs, inputs, report, t),
    ensures
        ({
            let c = final_chain(s, trigger, inputs);
            let most = MAX_CHAIN_DEPTH as nat;
            &&& forall|i: int, j: int|
                #![trigger report.writes@[i], report.writes@[j]]
                0 <= i < j < report.writes@.len() ==> c.leads_up(
                    report.writes@[i].0.candidate_id,
                    report.writes@[j].0.candidate_id,
                    most,
                )
            &&& forall|i: int, j: int|
                #![trigger report.deliveries@[i], report.deliveries@[j]]
                0 <= i < j < report.deliveries@.len() ==> c.leads_up(
                    report.deliveries@[i].id,
                    report.deliveries@[j].id,
                    most,
                )
        }),
{
    let c = final_chain(s, trigger, inputs);
    let env = inputs.env(
        trigger,
        final_sigs,
        worked(write_log(report.writes@)),
        worked(delivery_log(report.deliveries@)),
    );
    let w = walk_start(s);
    assert(c.at(0) == Some(trigger));
    assert(c.reaches(0));
    assert(c.under_final(0));
    assert(so_far(s, w, 0, env, c));
    lemma_walk_logs_upwards(
        s,
        w,
        trigger,
        true,
        Set::empty(),
        MAX_CHAIN_DEPTH as nat,
        0,
        env,
        c,
    );
}

} // verus!
