//! Candidate reception, repair of missing candidates, and serving of queries.

use vstd::prelude::*;

use crate::assoc::{lookup, AssocMap};
use crate::block::{CandidateHashInput, RawCandidateId, SlotIndex, ValidatorIndex};
use crate::candidate::{
    candidate_of, BlockInfoOutcome, CandidateBlockView, CandidateData, CandidateDataView,
    CandidateError, RawCandidate, RawCandidateView, WireCandidateId,
};
use crate::candidate_book::{
    ids_from, kept, BookView, CandidateBook, ReceivedCandidate, ReceivedView, MAX_CHAIN_DEPTH,
};
use crate::chain::{BlockIdExt, UInt256};
use crate::session_description::SessionDescription;
use crate::time::{TimePoint, TimeSpan};

verus! {

/// How long a broadcast is waited for before a candidate is asked of peers, in
/// nanoseconds.
pub const CANDIDATE_REQUEST_DELAY: u128 = 1_000_000_000;

/// Shortest time between two requests for one candidate, in nanoseconds.
pub const CANDIDATE_REQUEST_RETRY_INTERVAL: u128 = 2_000_000_000;

/// How long an unknown block is waited for before it is looked up again, in
/// nanoseconds.
pub const RESOLVER_AVAILABILITY_RETRY_DELAY: u128 = 500_000_000;

/// How often an unknown block is looked up again.
pub const RESOLVER_AVAILABILITY_MAX_RETRIES: u32 = 6;

/// What the rest of the session says about a candidate that arrives.
#[derive(Clone, Copy, Debug, PartialEq, Eq, Structural)]
pub struct IngressContext {
    /// Current time.
    pub now: TimePoint,
    /// Whether the slot lies too far in the future to be looked at.
    pub too_far_ahead: bool,
    /// First slot that is not final.
    pub first_non_finalized_slot: SlotIndex,
    /// Whether the candidate is already being validated, or was.
    pub known_in_validation: bool,
    /// Whether there is a notarization certificate for the candidate.
    pub notarized: bool,
}

/// What decoding, hashing, verifying and serializing a candidate gave.
#[derive(Debug)]
pub struct IngressChecks {
    /// Block decoded from the candidate's bytes.
    pub info: BlockInfoOutcome,
    /// Public key of the slot's leader.
    pub leader_key: UInt256,
    /// Hash of the candidate's identifier.
    pub hash: UInt256,
    /// Whether the leader's signature verifies.
    pub signature_valid: bool,
    /// The candidate in serialized form, unless that failed.
    pub serialized: Option<Vec<u8>>,
    /// Serialized input of the hash of the candidate's identifier.
    pub hash_data: Vec<u8>,
    /// When the block was generated, in milliseconds, if the block says so.
    pub gen_utime_ms: Option<u64>,
    /// Whether the shard splits after the block, if the block says so.
    pub before_split: Option<bool>,
}

/// A counter that reception moves.
#[derive(Clone, Copy, Debug, PartialEq, Eq, Structural)]
pub enum IngressCounter {
    /// A candidate arrived from this validator.
    Received { sender: ValidatorIndex, broadcast: bool },
    /// A broadcast was dropped: its slot lies too far ahead.
    FutureSlotDrop,
    /// A broadcast came from another validator than the leader.
    RelayedBroadcast,
    /// A broadcast was dropped: its slot is final.
    OldSlotDrop,
    /// A broadcast was dropped: another one was first in its slot.
    ConflictingSlotDrop,
}

/// Why a candidate of the local validator does not get validated.
#[derive(Clone, Copy, Debug, PartialEq, Eq, Structural)]
pub enum MissReason {
    TooFarAhead,
    OldSlot(SlotIndex),
    Malformed(CandidateError),
    ConflictingSlot(RawCandidateId),
}

/// Note that a candidate of the local validator does not get validated.
#[derive(Clone, Copy, Debug, PartialEq, Eq, Structural)]
pub struct MissedNote {
    pub slot: SlotIndex,
    /// The candidate, where its identifier is known.
    pub id: Option<RawCandidateId>,
    pub reason: MissReason,
}

/// What becomes of a candidate that arrives.
#[derive(Clone, Copy, Debug, PartialEq, Eq, Structural)]
pub enum IngressVerdict {
    /// Slot or parent slot is negative.
    NegativeSlot,
    /// The slot lies too far ahead.
    TooFarAhead,
    /// The sender is not a validator.
    UnknownSender,
    /// The slot is final and the candidate was broadcast.
    OldSlot,
    /// The candidate is malformed or not signed by the leader.
    Malformed(CandidateError),
    /// Another candidate was broadcast first in the slot.
    ConflictingBroadcast(RawCandidateId),
    /// The candidate is already known.
    AlreadyKnown,
    /// The candidate is new.
    Stored,
}

/// What the validator layer is told about a new block.
#[derive(Debug)]
pub struct CandidateObserved {
    pub block_id: BlockIdExt,
    pub data: Vec<u8>,
    pub collated_data: Vec<u8>,
    /// The block's data is there.
    pub body_present: bool,
    /// The candidate is notarized.
    pub parent_ready: bool,
    /// The local validator made the candidate.
    pub local_collated: bool,
}

/// What to write to the database about a new candidate.
#[derive(Debug)]
pub struct CandidateInfoSave {
    pub slot: SlotIndex,
    pub hash: UInt256,
    pub leader_idx: ValidatorIndex,
    pub hash_data: Vec<u8>,
    pub signature: Vec<u8>,
}

/// Result of the reception of a candidate.
#[derive(Debug)]
pub enum IngressOutcome {
    /// The candidate is new and was stored.
    Stored {
        raw_candidate: RawCandidate,
        slot: SlotIndex,
        hash: UInt256,
        leader_idx: ValidatorIndex,
        receive_time: TimePoint,
        before_split: Option<(BlockIdExt, bool)>,
        observed: Option<CandidateObserved>,
        notar_cert: Option<Vec<u8>>,
        payload: Option<Vec<u8>>,
        info: CandidateInfoSave,
    },
    /// The candidate was known; a certificate that came with it is handed on.
    AlreadyKnown { slot: SlotIndex, hash: UInt256, notar_cert: Option<Vec<u8>> },
    /// The candidate was dropped.
    Rejected,
}

/// Result of the reception of a candidate with what is to be recorded of it.
#[derive(Debug)]
pub struct IngressReport {
    pub outcome: IngressOutcome,
    pub counters: Vec<IngressCounter>,
    pub missed: Option<MissedNote>,
}

/// The contents of a [`CandidateController`].
#[verifier::ext_equal]
pub struct CandidateControllerView {
    /// The candidate book.
    pub book: BookView,
    /// When a candidate may be asked for again.
    pub requested: Map<RawCandidateId, TimePoint>,
}

/// The candidate that arrives, or why there is none.
pub open spec fn ingress_candidate(
    tl: CandidateDataView,
    checks: IngressChecks,
    desc: SessionDescription,
) -> Result<RawCandidateView, CandidateError> {
    candidate_of(
        tl,
        checks.info,
        desc.leader(SlotIndex(tl.slot() as u32)),
        checks.leader_key,
        checks.hash,
        checks.signature_valid,
    )
}

/// The first reason to drop a candidate before its contents are looked at.
pub open spec fn ingress_precheck(
    sender: ValidatorIndex,
    tl: CandidateDataView,
    broadcast: bool,
    ctx: IngressContext,
    desc: SessionDescription,
) -> Option<IngressVerdict> {
    if tl.slot() < 0 || (tl.parent() is Some && tl.parent()->Some_0.slot < 0) {
        Some(IngressVerdict::NegativeSlot)
    } else if ctx.too_far_ahead {
        Some(IngressVerdict::TooFarAhead)
    } else if sender.0 >= desc.weights().len() {
        Some(IngressVerdict::UnknownSender)
    } else if broadcast && tl.slot() < ctx.first_non_finalized_slot.0 {
        Some(IngressVerdict::OldSlot)
    } else {
        None
    }
}

/// What becomes of a candidate that arrives: the first reason to drop it, else
/// whether it is known.
pub open spec fn ingress_verdict(
    s: CandidateControllerView,
    sender: ValidatorIndex,
    tl: CandidateDataView,
    broadcast: bool,
    checks: IngressChecks,
    ctx: IngressContext,
    desc: SessionDescription,
) -> IngressVerdict {
    let slot = SlotIndex(tl.slot() as u32);
    let id = RawCandidateId { slot, hash: checks.hash };
    let early = ingress_precheck(sender, tl, broadcast, ctx, desc);
    if early is Some {
        early->Some_0
    } else if ingress_candidate(tl, checks, desc) is Err {
        IngressVerdict::Malformed(ingress_candidate(tl, checks, desc)->Err_0)
    } else if broadcast && s.book.seen.dom().contains(slot) && s.book.seen[slot] != id {
        IngressVerdict::ConflictingBroadcast(s.book.seen[slot])
    } else if !s.book.is_stub(id) && (ctx.known_in_validation || s.book.received.dom().contains(
        id,
    )) {
        IngressVerdict::AlreadyKnown
    } else {
        IngressVerdict::Stored
    }
}

/// The entry of a new candidate in the book.
pub open spec fn received_record(
    raw: RawCandidateView,
    tl: CandidateDataView,
    checks: IngressChecks,
    now: TimePoint,
) -> ReceivedView {
    let block_id = raw.block.block_id();
    ReceivedView {
        slot: raw.id.slot,
        source_idx: raw.leader,
        candidate_hash_data_bytes: checks.hash_data@,
        block_id,
        root_hash: block_id.root_hash,
        file_hash: block_id.file_hash,
        data: match raw.block {
            CandidateBlockView::NonEmpty(b) => b.data,
            CandidateBlockView::Empty(_) => Seq::<u8>::empty(),
        },
        collated_data: match raw.block {
            CandidateBlockView::NonEmpty(b) => b.collated_data,
            CandidateBlockView::Empty(_) => Seq::<u8>::empty(),
        },
        gen_utime_ms: match raw.block {
            CandidateBlockView::NonEmpty(_) => checks.gen_utime_ms,
            CandidateBlockView::Empty(_) => None,
        },
        receive_time: now,
        is_empty: tl is Empty,
        parent_id: raw.parent_id,
        before_split: match raw.block {
            CandidateBlockView::NonEmpty(_) => checks.before_split,
            CandidateBlockView::Empty(_) => None,
        },
    }
}

/// The state after a candidate arrived.
pub open spec fn after_ingress(
    s: CandidateControllerView,
    verdict: IngressVerdict,
    tl: CandidateDataView,
    broadcast: bool,
    checks: IngressChecks,
    ctx: IngressContext,
    desc: SessionDescription,
) -> CandidateControllerView {
    let slot = SlotIndex(tl.slot() as u32);
    let id = RawCandidateId { slot, hash: checks.hash };
    let seen = if broadcast && !s.book.seen.dom().contains(slot) {
        s.book.seen.insert(slot, id)
    } else {
        s.book.seen
    };
    match verdict {
        IngressVerdict::Stored => CandidateControllerView {
            book: BookView {
                received: s.book.received.insert(
                    id,
                    received_record(ingress_candidate(tl, checks, desc)->Ok_0, tl, checks, ctx.now),
                ),
                cached: match checks.serialized {
                    Some(bytes) => s.book.cached.insert(id, bytes@),
                    None => s.book.cached,
                },
                seen,
            },
            requested: s.requested.remove(id),
        },
        IngressVerdict::AlreadyKnown => CandidateControllerView {
            book: BookView { seen, ..s.book },
            ..s
        },
        _ => s,
    }
}

/// The counters that a candidate moves when it arrives.
pub open spec fn ingress_counters(
    verdict: IngressVerdict,
    sender: ValidatorIndex,
    leader: ValidatorIndex,
    broadcast: bool,
) -> Seq<IngressCounter> {
    let received = seq![IngressCounter::Received { sender, broadcast }];
    let relayed = if broadcast && sender != leader {
        received.push(IngressCounter::RelayedBroadcast)
    } else {
        received
    };
    match verdict {
        IngressVerdict::NegativeSlot => Seq::<IngressCounter>::empty(),
        IngressVerdict::TooFarAhead => if broadcast {
            received.push(IngressCounter::FutureSlotDrop)
        } else {
            received
        },
        IngressVerdict::UnknownSender => received,
        IngressVerdict::OldSlot => relayed.push(IngressCounter::OldSlotDrop),
        IngressVerdict::ConflictingBroadcast(_) => relayed.push(
            IngressCounter::ConflictingSlotDrop,
        ),
        _ => relayed,
    }
}

/// What is noted of a candidate of the local validator that is dropped before
/// its identifier is known.
pub open spec fn early_missed(
    verdict: IngressVerdict,
    local: bool,
    slot: SlotIndex,
    first_non_finalized: SlotIndex,
) -> Option<MissedNote> {
    if !local {
        None
    } else {
        match verdict {
            IngressVerdict::TooFarAhead => Some(
                MissedNote { slot, id: None, reason: MissReason::TooFarAhead },
            ),
            IngressVerdict::OldSlot => Some(
                MissedNote { slot, id: None, reason: MissReason::OldSlot(first_non_finalized) },
            ),
            IngressVerdict::Malformed(e) => Some(
                MissedNote { slot, id: None, reason: MissReason::Malformed(e) },
            ),
            _ => None,
        }
    }
}

/// What is noted of a candidate of the local validator that is dropped.
pub open spec fn ingress_missed(
    verdict: IngressVerdict,
    local: bool,
    slot: SlotIndex,
    hash: UInt256,
    first_non_finalized: SlotIndex,
) -> Option<MissedNote> {
    match verdict {
        IngressVerdict::ConflictingBroadcast(first) if local => Some(
            MissedNote {
                slot,
                id: Some(RawCandidateId { slot, hash }),
                reason: MissReason::ConflictingSlot(first),
            },
        ),
        _ => early_missed(verdict, local, slot, first_non_finalized),
    }
}

/// Whether `outcome` is what the verdict stands for.
pub open spec fn ingress_outcome(
    outcome: IngressOutcome,
    verdict: IngressVerdict,
    tl: CandidateDataView,
    notar_cert: Option<Vec<u8>>,
    local: bool,
    checks: IngressChecks,
    ctx: IngressContext,
    desc: SessionDescription,
) -> bool {
    let slot_index = SlotIndex(tl.slot() as u32);
    match verdict {
        IngressVerdict::Stored => {
            let raw = ingress_candidate(tl, checks, desc)->Ok_0;
            let block = raw.block.block_id();
            &&& outcome matches IngressOutcome::Stored {
                raw_candidate,
                slot,
                hash,
                leader_idx,
                receive_time,
                before_split,
                observed,
                notar_cert: cert,
                payload,
                info,
            }
            &&& raw_candidate@ == raw
            &&& slot == slot_index
            &&& hash == checks.hash
            &&& leader_idx == desc.leader(slot_index)
            &&& receive_time == ctx.now
            &&& cert == notar_cert
            &&& match checks.serialized {
                Some(bytes) => payload is Some && payload->Some_0@ == bytes@,
                None => payload is None,
            }
            &&& info.slot == slot_index
            &&& info.hash == checks.hash
            &&& info.leader_idx == desc.leader(slot_index)
            &&& info.hash_data@ == checks.hash_data@
            &&& info.signature@ == tl.signature()
            &&& match raw.block {
                CandidateBlockView::Empty(_) => before_split is None && observed is None,
                CandidateBlockView::NonEmpty(b) => {
                    &&& before_split == (match checks.before_split {
                        Some(flag) => Some((block, flag)),
                        None => None,
                    })
                    &&& observed is Some
                    &&& observed->Some_0.block_id == block
                    &&& observed->Some_0.data@ == b.data
                    &&& observed->Some_0.collated_data@ == b.collated_data
                    &&& observed->Some_0.body_present
                    &&& observed->Some_0.parent_ready == ctx.notarized
                    &&& observed->Some_0.local_collated == local
                },
            }
        },
        IngressVerdict::AlreadyKnown => outcome == (IngressOutcome::AlreadyKnown {
            slot: slot_index,
            hash: checks.hash,
            notar_cert,
        }),
        _ => outcome is Rejected,
    }
}

/// State of candidate reception and repair.
pub struct CandidateController {
    book: CandidateBook,
    requested_candidates: AssocMap<RawCandidateId, TimePoint>,
}

impl View for CandidateController {
    type V = CandidateControllerView;

    closed spec fn view(&self) -> CandidateControllerView {
        CandidateControllerView { book: self.book@, requested: self.requested_candidates@ }
    }
}

impl CandidateController {
    /// A controller with an empty book and nothing requested.
    pub fn new() -> (r: Self)
        ensures
            r@.book.received == Map::<RawCandidateId, ReceivedView>::empty(),
            r@.book.cached == Map::<RawCandidateId, Seq<u8>>::empty(),
            r@.book.seen == Map::<SlotIndex, RawCandidateId>::empty(),
            r@.requested == Map::<RawCandidateId, TimePoint>::empty(),
    {
        CandidateController { book: CandidateBook::new(), requested_candidates: AssocMap::new() }
    }

    /// The candidate book.
    pub fn book(&self) -> (r: &CandidateBook)
        ensures
            r@ == self@.book,
    {
        &self.book
    }

    /// The candidate book, to be changed.
    pub fn book_mut(&mut self) -> (r: &mut CandidateBook)
        ensures
            r@ == old(self)@.book,
            final(self)@.book == final(r)@,
            final(self)@.requested == old(self)@.requested,
    {
        &mut self.book
    }

    /// When the candidate may be asked for again, if it was asked for.
    pub fn next_request_time(&self, id: &RawCandidateId) -> (r: Option<TimePoint>)
        ensures
            r == lookup(self@.requested, *id),
    {
        match self.requested_candidates.get(id) {
            Some(t) => Some(*t),
            None => None,
        }
    }

    /// Drops a candidate from the validator `source_idx` before its contents
    /// are looked at, if there is a reason to.
    pub fn precheck_candidate(
        source_idx: u32,
        candidate: &CandidateData,
        broadcast: bool,
        ctx: &IngressContext,
        desc: &SessionDescription,
    ) -> (r: Option<IngressReport>)
        ensures
            ({
                let sender = ValidatorIndex(source_idx);
                let local = broadcast && sender == desc.local();
                let slot = SlotIndex(candidate@.slot() as u32);
                match ingress_precheck(sender, candidate@, broadcast, *ctx, *desc) {
                    None => r is None,
                    Some(verdict) => {
                        &&& r is Some
                        &&& r->Some_0.outcome is Rejected
                        &&& r->Some_0.counters@ == ingress_counters(
                            verdict,
                            sender,
                            desc.leader(slot),
                            broadcast,
                        )
                        &&& r->Some_0.missed == early_missed(
                            verdict,
                            local,
                            slot,
                            ctx.first_non_finalized_slot,
                        )
                    },
                }
            }),
    {
        let mut counters: Vec<IngressCounter> = Vec::new();
        let outcome: IngressOutcome = IngressOutcome::Rejected;
        if candidate.slot() < 0 {
            return Some(IngressReport { outcome, counters, missed: None });
        }
        match candidate.parent() {
            Some(p) => {
                if p.slot < 0 {
                    return Some(IngressReport { outcome, counters, missed: None });
                }
            },
            None => {},
        }
        let sender: ValidatorIndex = ValidatorIndex(source_idx);
        let slot: SlotIndex = SlotIndex(candidate.slot() as u32);
        let local: bool = broadcast && sender == desc.get_self_idx();
        counters.push(IngressCounter::Received { sender, broadcast });
        if ctx.too_far_ahead {
            if broadcast {
                counters.push(IngressCounter::FutureSlotDrop);
            }
            let missed: Option<MissedNote> = if local {
                Some(MissedNote { slot, id: None, reason: MissReason::TooFarAhead })
            } else {
                None
            };
            return Some(IngressReport { outcome, counters, missed });
        }
        if !sender.is_valid(desc.get_total_nodes()) {
            return Some(IngressReport { outcome, counters, missed: None });
        }
        if slot.0 < ctx.first_non_finalized_slot.0 && broadcast {
            if sender != desc.get_leader(slot) {
                counters.push(IngressCounter::RelayedBroadcast);
            }
            counters.push(IngressCounter::OldSlotDrop);
            let missed: Option<MissedNote> = if local {
                Some(
                    MissedNote {
                        slot,
                        id: None,
                        reason: MissReason::OldSlot(ctx.first_non_finalized_slot),
                    },
                )
            } else {
                None
            };
            return Some(IngressReport { outcome, counters, missed });
        }
        None
    }

    /// Takes in a candidate from the validator `source_idx`.
    ///
    /// A candidate without a certificate was broadcast; one with a certificate
    /// answers a query. `checks` holds what decoding, hashing, verifying and
    /// serializing the candidate gave; a candidate that is stored has an
    /// identifier that was hashed from something.
    pub fn receive_candidate(
        &mut self,
        source_idx: u32,
        candidate: &CandidateData,
        notar_cert: Option<Vec<u8>>,
        checks: &IngressChecks,
        ctx: &IngressContext,
        desc: &SessionDescription,
    ) -> (r: IngressReport)
        requires
            ingress_verdict(
                old(self)@,
                ValidatorIndex(source_idx),
                candidate@,
                notar_cert is None,
                *checks,
                *ctx,
                *desc,
            ) is Stored ==> checks.hash_data@.len() > 0,
        ensures
            ({
                let sender = ValidatorIndex(source_idx);
                let broadcast = notar_cert is None;
                let local = broadcast && sender == desc.local();
                let slot = SlotIndex(candidate@.slot() as u32);
                let verdict = ingress_verdict(
                    old(self)@,
                    sender,
                    candidate@,
                    broadcast,
                    *checks,
                    *ctx,
                    *desc,
                );
                &&& final(self)@ == after_ingress(
                    old(self)@,
                    verdict,
                    candidate@,
                    broadcast,
                    *checks,
                    *ctx,
                    *desc,
                )
                &&& ingress_outcome(
                    r.outcome,
                    verdict,
                    candidate@,
                    notar_cert,
                    local,
                    *checks,
                    *ctx,
                    *desc,
                )
                &&& r.counters@ == ingress_counters(verdict, sender, desc.leader(slot), broadcast)
                &&& r.missed == ingress_missed(
                    verdict,
                    local,
                    slot,
                    checks.hash,
                    ctx.first_non_finalized_slot,
                )
            }),
    {
        let broadcast: bool = notar_cert.is_none();
        match Self::precheck_candidate(source_idx, candidate, broadcast, ctx, desc) {
            Some(report) => {
                return report;
            },
            None => {},
        }
        let sender: ValidatorIndex = ValidatorIndex(source_idx);
        let slot: SlotIndex = SlotIndex(candidate.slot() as u32);
        let local: bool = broadcast && sender == desc.get_self_idx();
        let leader_idx: ValidatorIndex = desc.get_leader(slot);
        let mut counters: Vec<IngressCounter> = Vec::new();
        counters.push(IngressCounter::Received { sender, broadcast });
        if broadcast && sender != leader_idx {
            counters.push(IngressCounter::RelayedBroadcast);
        }
        let raw_candidate: RawCandidate = match RawCandidate::from_tl(
            candidate,
            &checks.info,
            leader_idx,
            checks.leader_key,
            checks.hash,
            checks.signature_valid,
        ) {
            Ok(c) => c,
            Err(e) => {
                let missed: Option<MissedNote> = if local {
                    Some(MissedNote { slot, id: None, reason: MissReason::Malformed(e) })
                } else {
                    None
                };
                return IngressReport { outcome: IngressOutcome::Rejected, counters, missed };
            },
        };
        let id: RawCandidateId = raw_candidate.id;
        let ghost raw = raw_candidate@;
        if broadcast {
            match self.book.seen_broadcast(slot) {
                Some(first) => {
                    if *first != id {
                        counters.push(IngressCounter::ConflictingSlotDrop);
                        let missed: Option<MissedNote> = if local {
                            Some(
                                MissedNote {
                                    slot,
                                    id: Some(id),
                                    reason: MissReason::ConflictingSlot(*first),
                                },
                            )
                        } else {
                            None
                        };
                        return IngressReport {
                            outcome: IngressOutcome::Rejected,
                            counters,
                            missed,
                        };
                    }
                },
                None => {
                    self.book.insert_seen_broadcast(slot, id);
                },
            }
        }
        let is_stub: bool = match self.book.received(&id) {
            Some(c) => c.candidate_hash_data_bytes.len() == 0,
            None => false,
        };
        if !is_stub && (ctx.known_in_validation || self.book.contains_received(&id)) {
            return IngressReport {
                outcome: IngressOutcome::AlreadyKnown { slot, hash: id.hash, notar_cert },
                counters,
                missed: None,
            };
        }
        let block_id: BlockIdExt = *raw_candidate.block.block_id();
        let is_empty: bool = matches!(candidate, CandidateData::Empty { .. });
        let payload: Option<Vec<u8>> = match &checks.serialized {
            Some(bytes) => {
                self.book.insert_cached_data(id, bytes.clone());
                Some(bytes.clone())
            },
            None => None,
        };
        let (data, collated_data, gen_utime_ms): (Vec<u8>, Vec<u8>, Option<u64>) =
            match raw_candidate.block.as_block() {
            Some(b) => (b.data.clone(), b.collated_data.clone(), checks.gen_utime_ms),
            None => (Vec::new(), Vec::new(), None),
        };
        let observed: Option<CandidateObserved> = if is_empty {
            None
        } else {
            Some(
                CandidateObserved {
                    block_id,
                    data: data.clone(),
                    collated_data: collated_data.clone(),
                    body_present: true,
                    parent_ready: ctx.notarized,
                    local_collated: local,
                },
            )
        };
        let before_split: Option<(BlockIdExt, bool)> = match checks.before_split {
            Some(flag) => if is_empty {
                None
            } else {
                Some((block_id, flag))
            },
            None => None,
        };
        let info = CandidateInfoSave {
            slot,
            hash: id.hash,
            leader_idx,
            hash_data: checks.hash_data.clone(),
            signature: raw_candidate.signature.clone(),
        };
        let record = ReceivedCandidate {
            slot,
            source_idx: leader_idx,
            candidate_hash_data_bytes: checks.hash_data.clone(),
            block_id,
            root_hash: block_id.root_hash,
            file_hash: block_id.file_hash,
            data,
            collated_data,
            gen_utime_ms,
            receive_time: ctx.now,
            is_empty,
            parent_id: raw_candidate.parent_id,
            before_split: if is_empty {
                None
            } else {
                checks.before_split
            },
        };
        assert(record@ == received_record(raw, candidate@, *checks, ctx.now));
        self.book.insert_received(id, record);
        self.requested_candidates.remove(&id);
        IngressReport {
            outcome: IngressOutcome::Stored {
                raw_candidate,
                slot,
                hash: id.hash,
                leader_idx,
                receive_time: ctx.now,
                before_split,
                observed,
                notar_cert,
                payload,
                info,
            },
            counters,
            missed: None,
        }
    }
}

/// What the rest of the session says when a candidate is to be repaired.
#[derive(Clone, Copy, Debug, PartialEq, Eq, Structural)]
pub struct RepairContext {
    /// Current time.
    pub now: TimePoint,
    /// Whether a certificate says that the candidate's slot is skipped.
    pub skip_certified: bool,
    /// Whether there is a notarization certificate for the candidate.
    pub notarized: bool,
}

/// What to do about a candidate that may be missing.
#[derive(Clone, Copy, Debug, PartialEq, Eq, Structural)]
pub enum RequestDecision {
    /// Nothing: its slot is skipped.
    Skipped,
    /// Nothing: it was asked for a short while ago.
    Throttled,
    /// Nothing: candidate and certificate are there.
    Complete,
    /// Ask peers for it.
    RequestNow,
    /// Look again at this time.
    RequestAt(TimePoint),
}

/// What to do when a scheduled look at a candidate is due.
#[derive(Clone, Copy, Debug, PartialEq, Eq, Structural)]
pub enum DelayedDecision {
    /// Nothing: the request was cancelled.
    Cancelled,
    /// Nothing: its slot is skipped.
    Skipped,
    /// Nothing: candidate and certificate are there.
    Complete,
    /// Ask peers for it.
    RequestNow,
}

/// What to do about a block that the validator layer needs.
#[derive(Debug)]
pub enum EnsureOutcome {
    /// The block is unknown: look again at this time.
    Retry { at: TimePoint, attempt: u32 },
    /// The block stayed unknown.
    GaveUp,
    /// Ask peers for these candidates; `too_deep` says that the parent chain
    /// was left at [`MAX_CHAIN_DEPTH`].
    Request { ids: Vec<RawCandidateId>, too_deep: bool },
}

/// `now` plus the shortest time between two requests.
pub open spec fn next_allowed(now: TimePoint) -> TimePoint {
    now.plus(retry_interval())->Some_0
}

/// The shortest time between two requests for one candidate.
pub open spec fn retry_interval() -> TimeSpan {
    TimeSpan { nanos: CANDIDATE_REQUEST_RETRY_INTERVAL }
}

/// Whether the candidate was asked for a short while ago.
pub open spec fn throttled(s: CandidateControllerView, id: RawCandidateId, now: TimePoint) -> bool {
    s.requested.dom().contains(id) && s.requested[id].nanos > now.nanos
}

/// Whether something is missing of a candidate that is to be asked for.
pub open spec fn request_wanted(
    s: CandidateControllerView,
    id: RawCandidateId,
    ctx: RepairContext,
) -> bool {
    !ctx.skip_certified && !throttled(s, id, ctx.now) && !(s.book.has_real_body(id)
        && ctx.notarized)
}

/// What to do about a candidate that may be missing.
pub open spec fn request_decision(
    s: CandidateControllerView,
    id: RawCandidateId,
    delay: TimeSpan,
    ctx: RepairContext,
) -> RequestDecision {
    if ctx.skip_certified {
        RequestDecision::Skipped
    } else if throttled(s, id, ctx.now) {
        RequestDecision::Throttled
    } else if s.book.has_real_body(id) && ctx.notarized {
        RequestDecision::Complete
    } else if delay.nanos == 0 {
        RequestDecision::RequestNow
    } else {
        RequestDecision::RequestAt(ctx.now.plus(delay)->Some_0)
    }
}

/// The state after the decision about a candidate that may be missing.
pub open spec fn after_request(
    s: CandidateControllerView,
    id: RawCandidateId,
    decision: RequestDecision,
    now: TimePoint,
) -> CandidateControllerView {
    CandidateControllerView {
        requested: match decision {
            RequestDecision::Skipped => s.requested.remove(id),
            RequestDecision::RequestNow => s.requested.insert(id, next_allowed(now)),
            RequestDecision::RequestAt(at) => s.requested.insert(id, next_allowed(at)),
            _ => s.requested,
        },
        ..s
    }
}

impl CandidateControllerView {
    /// Without requests for candidates of `slot`.
    pub open spec fn without_repairs(self, slot: SlotIndex) -> CandidateControllerView {
        CandidateControllerView {
            requested: kept(self.requested, |id: RawCandidateId| id.slot != slot),
            ..self
        }
    }

    /// Without requests for candidates of slots below `slot`.
    pub open spec fn repairs_from(self, slot: SlotIndex) -> CandidateControllerView {
        CandidateControllerView { requested: kept(self.requested, ids_from(slot)), ..self }
    }
}

/// What to do when a scheduled look at a candidate is due.
pub open spec fn delayed_decision(
    s: CandidateControllerView,
    id: RawCandidateId,
    ctx: RepairContext,
) -> DelayedDecision {
    if !s.requested.dom().contains(id) {
        DelayedDecision::Cancelled
    } else if ctx.skip_certified {
        DelayedDecision::Skipped
    } else if s.book.has_real_body(id) && ctx.notarized {
        DelayedDecision::Complete
    } else {
        DelayedDecision::RequestNow
    }
}

/// Whether a candidate is asked for on behalf of the validator layer.
pub open spec fn resolver_wants(
    s: CandidateControllerView,
    id: RawCandidateId,
    now: TimePoint,
) -> bool {
    !s.book.has_real_body(id) && !throttled(s, id, now)
}

/// The state after a candidate was looked at on behalf of the validator layer.
pub open spec fn after_resolver(
    s: CandidateControllerView,
    id: RawCandidateId,
    now: TimePoint,
) -> CandidateControllerView {
    if resolver_wants(s, id, now) {
        CandidateControllerView { requested: s.requested.insert(id, next_allowed(now)), ..s }
    } else {
        s
    }
}

/// The candidate asked for when `id` is looked at on behalf of the validator layer.
pub open spec fn resolver_ids(
    s: CandidateControllerView,
    id: RawCandidateId,
    now: TimePoint,
) -> Seq<RawCandidateId> {
    if resolver_wants(s, id, now) {
        seq![id]
    } else {
        Seq::<RawCandidateId>::empty()
    }
}

/// Looks at the ancestors of `current`, at most `fuel` of them, as far as the
/// book knows them: the state after that, the candidates asked for, and
/// whether ancestors are left.
pub open spec fn resolver_chain(
    s: CandidateControllerView,
    current: RawCandidateId,
    now: TimePoint,
    fuel: nat,
) -> (CandidateControllerView, Seq<RawCandidateId>, bool)
    decreases fuel,
{
    if fuel == 0 {
        (s, Seq::<RawCandidateId>::empty(), true)
    } else if !s.book.received.dom().contains(current)
        || s.book.received[current].parent_id is None {
        (s, Seq::<RawCandidateId>::empty(), false)
    } else {
        let parent = s.book.received[current].parent_id->Some_0;
        let next = after_resolver(s, parent, now);
        let ids = resolver_ids(s, parent, now);
        if !s.book.received.dom().contains(parent) {
            (next, ids, false)
        } else {
            let rest = resolver_chain(next, parent, now, (fuel - 1) as nat);
            (rest.0, ids + rest.1, rest.2)
        }
    }
}

/// The candidates asked for when `id`, and if wanted its ancestors, are looked at
/// on behalf of the validator layer.
pub open spec fn wanted_ids(
    s: CandidateControllerView,
    id: RawCandidateId,
    include_parent_chain: bool,
    now: TimePoint,
) -> Seq<RawCandidateId> {
    let first = resolver_ids(s, id, now);
    if include_parent_chain {
        first + resolver_chain(after_resolver(s, id, now), id, now, MAX_CHAIN_DEPTH as nat).1
    } else {
        first
    }
}

/// Whether `id` is the candidate of a block: the one that the collation side
/// knows, failing that one that the book knows.
pub open spec fn stands_for(
    s: CandidateControllerView,
    id: RawCandidateId,
    block_id: BlockIdExt,
    collation_id: Option<RawCandidateId>,
) -> bool {
    match collation_id {
        Some(known) => id == known,
        None => s.book.received.dom().contains(id) && s.book.received[id].block_id == block_id,
    }
}

impl CandidateController {
    /// Whether the candidate was asked for a short while ago.
    fn is_throttled(&self, id: &RawCandidateId, now: TimePoint) -> (r: bool)
        ensures
            r == throttled(self@, *id, now),
    {
        match self.requested_candidates.get(id) {
            Some(next) => next.nanos > now.nanos,
            None => false,
        }
    }

    /// Whether something is missing of a candidate that is to be asked for.
    pub fn wants_request(&self, id: &RawCandidateId, ctx: &RepairContext) -> (r: bool)
        ensures
            r == request_wanted(self@, *id, *ctx),
    {
        !ctx.skip_certified && !self.is_throttled(id, ctx.now) && !(self.book.has_real_body(id)
            && ctx.notarized)
    }

    /// Whether something is missing of a candidate when the scheduled look at it
    /// is due.
    pub fn wants_delayed_request(&self, id: &RawCandidateId, ctx: &RepairContext) -> (r: bool)
        ensures
            r == (delayed_decision(self@, *id, *ctx) is RequestNow),
    {
        self.requested_candidates.contains_key(id) && !ctx.skip_certified && !(
        self.book.has_real_body(id) && ctx.notarized)
    }

    /// Decides about a candidate that may be missing.
    ///
    /// Without `initial_delay` the broadcast is waited for; with a delay of zero
    /// peers are asked at once.
    pub fn request_candidate(
        &mut self,
        slot: SlotIndex,
        block_hash: UInt256,
        initial_delay: Option<TimeSpan>,
        ctx: &RepairContext,
    ) -> (r: RequestDecision)
        requires
            request_wanted(old(self)@, RawCandidateId { slot, hash: block_hash }, *ctx) ==> {
                let at = ctx.now.plus(
                    match initial_delay {
                        Some(d) => d,
                        None => TimeSpan { nanos: CANDIDATE_REQUEST_DELAY },
                    },
                );
                at is Some && at->Some_0.plus(retry_interval()) is Some
            },
        ensures
            ({
                let id = RawCandidateId { slot, hash: block_hash };
                let delay = match initial_delay {
                    Some(d) => d,
                    None => TimeSpan { nanos: CANDIDATE_REQUEST_DELAY },
                };
                &&& r == request_decision(old(self)@, id, delay, *ctx)
                &&& final(self)@ == after_request(old(self)@, id, r, ctx.now)
            }),
    {
        let delay: TimeSpan = match initial_delay {
            Some(d) => d,
            None => TimeSpan { nanos: CANDIDATE_REQUEST_DELAY },
        };
        let key: RawCandidateId = RawCandidateId { slot, hash: block_hash };
        if ctx.skip_certified {
            self.requested_candidates.remove(&key);
            return RequestDecision::Skipped;
        }
        if self.is_throttled(&key, ctx.now) {
            return RequestDecision::Throttled;
        }
        if self.book.has_real_body(&key) && ctx.notarized {
            return RequestDecision::Complete;
        }
        if delay.is_zero() {
            let next: TimePoint = ctx.now.moved_on(
                TimeSpan { nanos: CANDIDATE_REQUEST_RETRY_INTERVAL },
            );
            self.requested_candidates.insert(key, next);
            RequestDecision::RequestNow
        } else {
            let at: TimePoint = ctx.now.moved_on(delay);
            let next: TimePoint = at.moved_on(TimeSpan { nanos: CANDIDATE_REQUEST_RETRY_INTERVAL });
            self.requested_candidates.insert(key, next);
            RequestDecision::RequestAt(at)
        }
    }

    /// Decides about a candidate when the scheduled look at it is due.
    pub fn delayed_request_candidate(&mut self, id: &RawCandidateId, ctx: &RepairContext) -> (r:
        DelayedDecision)
        requires
            delayed_decision(old(self)@, *id, *ctx) is RequestNow ==> ctx.now.plus(
                retry_interval(),
            ) is Some,
        ensures
            r == delayed_decision(old(self)@, *id, *ctx),
            final(self)@ == (CandidateControllerView {
                requested: match r {
                    DelayedDecision::Skipped => old(self)@.requested.remove(*id),
                    DelayedDecision::RequestNow => old(self)@.requested.insert(
                        *id,
                        next_allowed(ctx.now),
                    ),
                    _ => old(self)@.requested,
                },
                ..old(self)@
            }),
    {
        if !self.requested_candidates.contains_key(id) {
            return DelayedDecision::Cancelled;
        }
        if ctx.skip_certified {
            self.requested_candidates.remove(id);
            return DelayedDecision::Skipped;
        }
        if self.book.has_real_body(id) && ctx.notarized {
            return DelayedDecision::Complete;
        }
        let next: TimePoint = ctx.now.moved_on(TimeSpan { nanos: CANDIDATE_REQUEST_RETRY_INTERVAL });
        self.requested_candidates.insert(*id, next);
        DelayedDecision::RequestNow
    }

    /// Whether to ask peers for a candidate on behalf of the validator layer,
    /// be its slot skipped or not.
    pub fn request_candidate_body_for_resolver(&mut self, id: &RawCandidateId, now: TimePoint) -> (r:
        bool)
        requires
            resolver_wants(old(self)@, *id, now) ==> now.plus(retry_interval()) is Some,
        ensures
            r == resolver_wants(old(self)@, *id, now),
            final(self)@ == after_resolver(old(self)@, *id, now),
    {
        if self.book.has_real_body(id) {
            return false;
        }
        if self.is_throttled(id, now) {
            return false;
        }
        let next: TimePoint = now.moved_on(TimeSpan { nanos: CANDIDATE_REQUEST_RETRY_INTERVAL });
        self.requested_candidates.insert(*id, next);
        true
    }

    /// Asks for a known candidate and, if wanted, for its ancestors.
    pub fn ensure_known_candidate(
        &mut self,
        id: RawCandidateId,
        include_parent_chain: bool,
        now: TimePoint,
    ) -> (r: (Vec<RawCandidateId>, bool))
        requires
            wanted_ids(old(self)@, id, include_parent_chain, now).len() > 0 ==> now.plus(
                retry_interval(),
            ) is Some,
        ensures
            ({
                let first = after_resolver(old(self)@, id, now);
                let ids = resolver_ids(old(self)@, id, now);
                if include_parent_chain {
                    let rest = resolver_chain(first, id, now, MAX_CHAIN_DEPTH as nat);
                    final(self)@ == rest.0 && r.0@ == ids + rest.1 && r.1 == rest.2
                } else {
                    final(self)@ == first && r.0@ == ids && !r.1
                }
            }),
    {
        let mut ids: Vec<RawCandidateId> = Vec::new();
        if self.request_candidate_body_for_resolver(&id, now) {
            ids.push(id);
        }
        assert(ids@ =~= resolver_ids(old(self)@, id, now));
        if !include_parent_chain {
            return (ids, false);
        }
        let ghost first = self@;
        let ghost head = ids@;
        let ghost whole = resolver_chain(first, id, now, MAX_CHAIN_DEPTH as nat);
        let mut current: RawCandidateId = id;
        let mut depth: u32 = 0;
        assert(head + whole.1 =~= ids@ + whole.1);
        loop
            invariant
                depth <= MAX_CHAIN_DEPTH,
                (head + whole.1).len() > 0 ==> now.plus(retry_interval()) is Some,
                include_parent_chain,
                first == after_resolver(old(self)@, id, now),
                head == resolver_ids(old(self)@, id, now),
                whole == resolver_chain(first, id, now, MAX_CHAIN_DEPTH as nat),
                ({
                    let rest = resolver_chain(
                        self@,
                        current,
                        now,
                        (MAX_CHAIN_DEPTH - depth) as nat,
                    );
                    &&& rest.0 == whole.0
                    &&& ids@ + rest.1 == head + whole.1
                    &&& rest.2 == whole.2
                }),
            decreases MAX_CHAIN_DEPTH - depth,
        {
            let ghost rest = resolver_chain(self@, current, now, (MAX_CHAIN_DEPTH - depth) as nat);
            if depth == MAX_CHAIN_DEPTH {
                assert(ids@ + rest.1 =~= ids@);
                return (ids, true);
            }
            depth += 1;
            let parent: RawCandidateId = match self.book.received(&current) {
                Some(c) => match c.parent_id {
                    Some(p) => p,
                    None => {
                        assert(ids@ + rest.1 =~= ids@);
                        return (ids, false);
                    },
                },
                None => {
                    assert(ids@ + rest.1 =~= ids@);
                    return (ids, false);
                },
            };
            let ghost before = self@;
            let ghost ids_before = ids@;
            if self.request_candidate_body_for_resolver(&parent, now) {
                ids.push(parent);
            }
            assert(ids@ =~= ids_before + resolver_ids(before, parent, now));
            if !self.book.contains_received(&parent) {
                return (ids, false);
            }
            proof {
                let tail = resolver_chain(self@, parent, now, (MAX_CHAIN_DEPTH - depth) as nat);
                assert(rest.1 == resolver_ids(before, parent, now) + tail.1);
                assert(ids@ + tail.1 =~= ids_before + rest.1);
            }
            current = parent;
        }
    }

    /// Sees to it that the candidate with this block, and if wanted its
    /// ancestors, are asked for.
    ///
    /// `collation_id` is the candidate that the collation side knows for the
    /// block; failing that the book is asked. An unknown block is looked up
    /// again later, [`RESOLVER_AVAILABILITY_MAX_RETRIES`] times.
    pub fn ensure_candidate_available(
        &mut self,
        block_id: &BlockIdExt,
        include_parent_chain: bool,
        attempt: u32,
        collation_id: Option<RawCandidateId>,
        now: TimePoint,
    ) -> (r: EnsureOutcome)
        requires
            forall|id: RawCandidateId| #[trigger]
                stands_for(old(self)@, id, *block_id, collation_id) && wanted_ids(
                    old(self)@,
                    id,
                    include_parent_chain,
                    now,
                ).len() > 0 ==> now.plus(retry_interval()) is Some,
            attempt < RESOLVER_AVAILABILITY_MAX_RETRIES && (forall|id: RawCandidateId|
                !#[trigger] stands_for(old(self)@, id, *block_id, collation_id)) ==> now.plus(
                TimeSpan { nanos: RESOLVER_AVAILABILITY_RETRY_DELAY },
            ) is Some,
        ensures
            match r {
                EnsureOutcome::Retry { at, attempt: next } => {
                    &&& final(self)@ == old(self)@
                    &&& collation_id is None
                    &&& forall|id: RawCandidateId| #[trigger]
                        old(self)@.book.received.dom().contains(id)
                            ==> old(self)@.book.received[id].block_id != *block_id
                    &&& attempt < RESOLVER_AVAILABILITY_MAX_RETRIES
                    &&& next == attempt + 1
                    &&& at.nanos == now.nanos + RESOLVER_AVAILABILITY_RETRY_DELAY
                },
                EnsureOutcome::GaveUp => {
                    &&& final(self)@ == old(self)@
                    &&& collation_id is None
                    &&& forall|id: RawCandidateId| #[trigger]
                        old(self)@.book.received.dom().contains(id)
                            ==> old(self)@.book.received[id].block_id != *block_id
                    &&& attempt >= RESOLVER_AVAILABILITY_MAX_RETRIES
                },
                EnsureOutcome::Request { ids, too_deep } => exists|id: RawCandidateId|
                    {
                        let first = after_resolver(old(self)@, id, now);
                        let rest = if include_parent_chain {
                            resolver_chain(first, id, now, MAX_CHAIN_DEPTH as nat)
                        } else {
                            (first, Seq::<RawCandidateId>::empty(), false)
                        };
                        &&& match collation_id {
                            Some(known) => id == known,
                            None => old(self)@.book.received.dom().contains(id)
                                && old(self)@.book.received[id].block_id == *block_id,
                        }
                        &&& final(self)@ == rest.0
                        &&& ids@ == #[trigger] resolver_ids(old(self)@, id, now) + rest.1
                        &&& too_deep == rest.2
                    },
            },
    {
        let found: Option<RawCandidateId> = match collation_id {
            Some(id) => Some(id),
            None => self.book.find_received_by_block_id(block_id),
        };
        match found {
            Some(id) => {
                assert(stands_for(self@, id, *block_id, collation_id));
                let (ids, too_deep) = self.ensure_known_candidate(id, include_parent_chain, now);
                proof {
                    let first = resolver_ids(old(self)@, id, now);
                    assert(first + Seq::<RawCandidateId>::empty() =~= first);
                }
                EnsureOutcome::Request { ids, too_deep }
            },
            None => {
                if attempt < RESOLVER_AVAILABILITY_MAX_RETRIES {
                    EnsureOutcome::Retry {
                        at: now.moved_on(TimeSpan { nanos: RESOLVER_AVAILABILITY_RETRY_DELAY }),
                        attempt: attempt + 1,
                    }
                } else {
                    EnsureOutcome::GaveUp
                }
            },
        }
    }

    /// Forgets that candidates of `slot` were asked for; the number of
    /// forgotten requests is handed back.
    pub fn cancel_repairs_for_slot(&mut self, slot: SlotIndex) -> (removed: usize)
        ensures
            final(self)@ == old(self)@.without_repairs(slot),
            final(self)@ == (CandidateControllerView {
                requested: kept(old(self)@.requested, |id: RawCandidateId| id.slot != slot),
                ..old(self)@
            }),
            old(self)@.requested.dom().finite(),
            final(self)@.requested.dom().finite(),
            removed == old(self)@.requested.dom().len() - final(self)@.requested.dom().len(),
    {
        let before: usize = self.requested_candidates.len();
        let dropped: u32 = slot.0;
        let keep = |id: &RawCandidateId, _at: &TimePoint| -> (b: bool)
            ensures b == (id.slot.0 != dropped)
        {
            id.slot.0 != dropped
        };
        self.requested_candidates.retain(keep);
        let after: usize = self.requested_candidates.len();
        assert(self@.requested =~= kept(
            old(self)@.requested,
            |id: RawCandidateId| id.slot != slot,
        ));
        proof {
            assert(self@.requested.dom().subset_of(old(self)@.requested.dom()));
            vstd::set_lib::lemma_len_subset(self@.requested.dom(), old(self)@.requested.dom());
        }
        before - after
    }

    /// Forgets that candidates of slots below `up_to_slot` were asked for.
    pub fn prune_requested_below(&mut self, up_to_slot: SlotIndex)
        ensures
            final(self)@ == old(self)@.repairs_from(up_to_slot),
            final(self)@ == (CandidateControllerView {
                requested: kept(old(self)@.requested, ids_from(up_to_slot)),
                ..old(self)@
            }),
    {
        let limit: u32 = up_to_slot.0;
        let keep = |id: &RawCandidateId, _at: &TimePoint| -> (b: bool)
            ensures b == (id.slot.0 >= limit)
        {
            id.slot.0 >= limit
        };
        self.requested_candidates.retain(keep);
        assert(self@.requested =~= kept(old(self)@.requested, ids_from(up_to_slot)));
    }
}

/// Stored metadata of a candidate, as far as queries need it.
#[derive(Debug)]
pub struct StoredCandidateInfo {
    /// What the hash of the candidate's identifier was computed from.
    pub hash_data: CandidateHashInput,
    /// The leader's signature.
    pub signature: Vec<u8>,
}

/// The candidate part of the answer to a query.
#[derive(Debug)]
pub enum CandidateAnswer {
    /// Nothing.
    Nothing,
    /// These serialized bytes.
    Bytes(Vec<u8>),
    /// This candidate, to be serialized.
    Rebuilt(CandidateData),
}

/// Why an empty candidate cannot be rebuilt from its metadata.
#[derive(Clone, Copy, Debug, PartialEq, Eq, Structural)]
pub enum RebuildError {
    /// The metadata is that of a candidate with a block of its own.
    NotEmpty,
    /// The block that the candidate re-signs is not known.
    UnknownBlock,
}

/// The empty candidate `id` rebuilt from its metadata.
pub open spec fn rebuilt(
    book: BookView,
    id: RawCandidateId,
    info: StoredCandidateInfo,
) -> Result<CandidateDataView, RebuildError> {
    match info.hash_data {
        CandidateHashInput::Ordinary { .. } => Err(RebuildError::NotEmpty),
        CandidateHashInput::Empty { parent, .. } => if book.received.dom().contains(id) {
            Ok(
                CandidateDataView::Empty {
                    slot: id.slot.0 as i32,
                    parent: WireCandidateId::encoded(parent),
                    block: book.received[id].block_id,
                    signature: info.signature@,
                },
            )
        } else {
            Err(RebuildError::UnknownBlock)
        },
    }
}

/// Whether `answer` is what a query for candidate `id` gets: the cached bytes;
/// failing that the stored payload; failing that a rebuilt empty candidate.
pub open spec fn query_answer(
    answer: CandidateAnswer,
    book: BookView,
    id: RawCandidateId,
    want_candidate: bool,
    payload: Option<Vec<u8>>,
    info: Option<StoredCandidateInfo>,
) -> bool {
    if !want_candidate {
        answer is Nothing
    } else if book.cached.dom().contains(id) {
        answer matches CandidateAnswer::Bytes(b) && b@ == book.cached[id]
    } else if payload is Some && payload->Some_0@.len() > 0 {
        answer matches CandidateAnswer::Bytes(b) && b@ == payload->Some_0@
    } else {
        match info {
            Some(i) => match rebuilt(book, id, i) {
                Ok(tl) => answer matches CandidateAnswer::Rebuilt(c) && c@ == tl,
                Err(_) => answer is Nothing,
            },
            None => answer is Nothing,
        }
    }
}

impl CandidateController {
    /// Answers a query for a candidate or its certificate.
    ///
    /// `payload`, `info` and `notar_bytes` are what the database holds.
    pub fn serve_query_fallback(
        &self,
        slot: SlotIndex,
        block_hash: UInt256,
        want_candidate: bool,
        want_notar: bool,
        payload: Option<Vec<u8>>,
        info: Option<StoredCandidateInfo>,
        notar_bytes: Vec<u8>,
    ) -> (r: (CandidateAnswer, Vec<u8>))
        ensures
            query_answer(
                r.0,
                self@.book,
                RawCandidateId { slot, hash: block_hash },
                want_candidate,
                payload,
                info,
            ),
            r.1@ == (if want_notar {
                notar_bytes@
            } else {
                Seq::<u8>::empty()
            }),
    {
        let id: RawCandidateId = RawCandidateId { slot, hash: block_hash };
        let notar: Vec<u8> = if want_notar {
            notar_bytes
        } else {
            Vec::new()
        };
        if !want_candidate {
            return (CandidateAnswer::Nothing, notar);
        }
        match self.book.cached_data(&id) {
            Some(bytes) => {
                return (CandidateAnswer::Bytes(bytes.clone()), notar);
            },
            None => {},
        }
        match payload {
            Some(bytes) => {
                if bytes.len() > 0 {
                    return (CandidateAnswer::Bytes(bytes), notar);
                }
            },
            None => {},
        }
        match info {
            Some(i) => match self.reconstruct_empty_candidate_data_from_info(&id, &i) {
                Ok(tl) => (CandidateAnswer::Rebuilt(tl), notar),
                Err(_) => (CandidateAnswer::Nothing, notar),
            },
            None => (CandidateAnswer::Nothing, notar),
        }
    }

    /// Rebuilds an empty candidate from its metadata.
    pub fn reconstruct_empty_candidate_data_from_info(
        &self,
        id: &RawCandidateId,
        info: &StoredCandidateInfo,
    ) -> (r: Result<CandidateData, RebuildError>)
        ensures
            match r {
                Ok(tl) => rebuilt(self@.book, *id, *info) == Ok::<_, RebuildError>(tl@),
                Err(e) => rebuilt(self@.book, *id, *info) == Err::<CandidateDataView, _>(e),
            },
    {
        match &info.hash_data {
            CandidateHashInput::Ordinary { .. } => Err(RebuildError::NotEmpty),
            CandidateHashInput::Empty { parent, .. } => match self.book.received(id) {
                Some(c) => Ok(
                    CandidateData::Empty {
                        slot: id.slot.0 as i32,
                        parent: WireCandidateId::encode(parent),
                        block: c.block_id,
                        signature: info.signature.clone(),
                    },
                ),
                None => Err(RebuildError::UnknownBlock),
            },
        }
    }
}

/// A candidate that is dropped leaves no trace in the state.
pub proof fn dropped_candidates_change_nothing(
    s: CandidateControllerView,
    verdict: IngressVerdict,
    tl: CandidateDataView,
    broadcast: bool,
    checks: IngressChecks,
    ctx: IngressContext,
    desc: SessionDescription,
)
    requires
        !(verdict is Stored),
        !(verdict is AlreadyKnown),
    ensures
        after_ingress(s, verdict, tl, broadcast, checks, ctx, desc) == s,
{
}

/// A candidate that was stored is there itself, and is known when it arrives
/// again, in the same way, from whatever sender and however late, unless it is
/// then dropped.
pub proof fn stored_candidates_stay_known(
    s: CandidateControllerView,
    first: ValidatorIndex,
    second: ValidatorIndex,
    tl: CandidateDataView,
    broadcast: bool,
    checks: IngressChecks,
    ctx: IngressContext,
    later: IngressContext,
    desc: SessionDescription,
)
    requires
        ingress_verdict(s, first, tl, broadcast, checks, ctx, desc) is Stored,
        checks.hash_data@.len() > 0,
        !later.too_far_ahead,
        second.0 < desc.weights().len(),
        tl.slot() >= later.first_non_finalized_slot.0 || !broadcast,
    ensures
        after_ingress(
            s,
            IngressVerdict::Stored,
            tl,
            broadcast,
            checks,
            ctx,
            desc,
        ).book.has_real_body(RawCandidateId { slot: SlotIndex(tl.slot() as u32), hash: checks.hash }),
        ingress_verdict(
            after_ingress(s, IngressVerdict::Stored, tl, broadcast, checks, ctx, desc),
            second,
            tl,
            broadcast,
            checks,
            later,
            desc,
        ) is AlreadyKnown,
{
}

/// At most one candidate of a slot gets in by broadcast: once one was not
/// dropped, a broadcast of another one in the same slot is refused.
pub proof fn one_broadcast_per_slot(
    s: CandidateControllerView,
    sender: ValidatorIndex,
    tl: CandidateDataView,
    checks: IngressChecks,
    ctx: IngressContext,
    other_sender: ValidatorIndex,
    other: CandidateDataView,
    other_checks: IngressChecks,
    later: IngressContext,
    desc: SessionDescription,
)
    requires
        ({
            let v = ingress_verdict(s, sender, tl, true, checks, ctx, desc);
            v is Stored || v is AlreadyKnown
        }),
        other.slot() == tl.slot(),
        other_checks.hash != checks.hash,
    ensures
        ({
            let v = ingress_verdict(s, sender, tl, true, checks, ctx, desc);
            let t = after_ingress(s, v, tl, true, checks, ctx, desc);
            let w = ingress_verdict(t, other_sender, other, true, other_checks, later, desc);
            !(w is Stored) && !(w is AlreadyKnown)
        }),
{
}

/// A stored candidate without a block of its own has a parent.
pub proof fn stored_empties_have_parents(
    s: CandidateControllerView,
    sender: ValidatorIndex,
    tl: CandidateDataView,
    broadcast: bool,
    checks: IngressChecks,
    ctx: IngressContext,
    desc: SessionDescription,
)
    requires
        ingress_verdict(s, sender, tl, broadcast, checks, ctx, desc) is Stored,
    ensures
        ({
            let id = RawCandidateId { slot: SlotIndex(tl.slot() as u32), hash: checks.hash };
            let t = after_ingress(s, IngressVerdict::Stored, tl, broadcast, checks, ctx, desc);
            t.book.received[id].is_empty ==> t.book.received[id].parent_id is Some
        }),
{
}

/// Peers are not asked for a candidate twice within
/// [`CANDIDATE_REQUEST_RETRY_INTERVAL`], neither by repair nor on behalf of the
/// validator layer.
pub proof fn requests_are_spaced(
    s: CandidateControllerView,
    id: RawCandidateId,
    delay: TimeSpan,
    ctx: RepairContext,
    second_delay: TimeSpan,
    later: RepairContext,
)
    requires
        request_decision(s, id, delay, ctx) is RequestNow,
        ctx.now.plus(retry_interval()) is Some,
        later.now.nanos < ctx.now.nanos + CANDIDATE_REQUEST_RETRY_INTERVAL,
    ensures
        ({
            let t = after_request(s, id, RequestDecision::RequestNow, ctx.now);
            &&& !(request_decision(t, id, second_delay, later) is RequestNow)
            &&& !(request_decision(t, id, second_delay, later) is RequestAt)
            &&& !resolver_wants(t, id, later.now)
        }),
{
}

} // verus!
