//! Votes, certificates and finalization.

use vstd::prelude::*;

use crate::assoc::{lookup, AssocMap};
use crate::block::{roundless_source, BlockSourceInfo, RawCandidateId, SlotIndex, ValidatorIndex};
use crate::candidate_book::{
    ids_from, kept, BookView, CandidateBook, ReceivedCandidate, ReceivedView, MAX_CHAIN_DEPTH,
};
use crate::certificate::{
    certified, voters, Certificate, CertificateError, FinalCert, NotarCert, VoteSignature,
    WireSignature,
};
use crate::chain::{BlockIdExt, UInt256};
use crate::consensus_backend::{BackendCalls, ConsensusBackend};
use crate::consensus_laws::{carried, good_certificates_are_taken_in, slot_named};
use crate::database::FinalizedBlockRecord;
use crate::misbehavior::{MisbehaviorReport, VoteResult};
use crate::order::{is_sorted, reordering_keeps_members, sort_by_rank, sorting_is_stable};
use crate::raw_vote::RawVoteData;
use crate::session_description::{lemma_weight_of_prefix, weight_of, SessionDescription};
use crate::time::{TimePoint, TimeSpan};
use crate::votes::{unsigned, ToTlUnsignedVote, UnsignedVote, Vote};

verus! {

/// A set of keys.
pub type KeySet<K> = AssocMap<K, ()>;

/// A finalization that waits until its blocks are there.
#[derive(Debug)]
pub struct FinalizedEntry {
    /// Certificate of the finalization.
    pub certificate: FinalCert,
    /// When the finalization was seen first.
    pub finalized_at: TimePoint,
}

/// The block delivered at a seqno, and the slot it came from.
#[derive(Clone, Copy, Debug, PartialEq, Eq, Structural)]
pub struct FinalizedSeqnoRecord {
    pub slot: SlotIndex,
    pub block_id: BlockIdExt,
}

/// The contents of a [`ConsensusController`].
#[verifier::ext_equal]
pub struct ConsensusView {
    /// Highest seqno of a finalized block.
    pub head_seqno: Option<u32>,
    /// Slot of the finalized head.
    pub head_slot: Option<SlotIndex>,
    /// Block of the finalized head.
    pub head_block: Option<BlockIdExt>,
    /// Whether the shard splits after the finalized head.
    pub head_before_split: bool,
    /// Whether the shard splits after a block.
    pub before_split: Map<BlockIdExt, bool>,
    /// Highest finalized seqno for block production.
    pub last_consensus: Option<u32>,
    /// Candidates whose finalization was applied.
    pub finalized: Set<RawCandidateId>,
    /// Finalizations that wait for their blocks.
    pub pending: Map<RawCandidateId, FinalizedEntry>,
    /// Candidates whose block was delivered, or will not be.
    pub sent: Set<RawCandidateId>,
    /// Block delivered at a seqno.
    pub sent_seqno: Map<u32, FinalizedSeqnoRecord>,
    /// Highest seqno that the masterchain registered.
    pub last_mc: Option<u32>,
    /// Seqno of the accepted head.
    pub accepted_seqno: u32,
    /// Block of the accepted head, if known.
    pub accepted_block: Option<BlockIdExt>,
    /// Reports of misbehavior.
    pub reports: Seq<MisbehaviorReport>,
}

/// The number in `v`, or zero.
pub open spec fn or_zero(v: Option<u32>) -> u32 {
    match v {
        Some(n) => n,
        None => 0,
    }
}

/// State of votes, certificates and finalization.
pub struct ConsensusController {
    finalized_head_seqno: Option<u32>,
    finalized_head_slot: Option<SlotIndex>,
    finalized_head_block_id: Option<BlockIdExt>,
    finalized_head_before_split: bool,
    before_split_by_block_id: AssocMap<BlockIdExt, bool>,
    last_consensus_finalized_seqno: Option<u32>,
    finalized_blocks: KeySet<RawCandidateId>,
    finalized_pending_body: AssocMap<RawCandidateId, FinalizedEntry>,
    finalized_delivery_sent: KeySet<RawCandidateId>,
    finalized_delivery_sent_seqno: AssocMap<u32, FinalizedSeqnoRecord>,
    last_mc_finalized_seqno: Option<u32>,
    accepted_normal_head_seqno: u32,
    accepted_normal_head_block_id: Option<BlockIdExt>,
    misbehavior_reports: Vec<MisbehaviorReport>,
}

impl View for ConsensusController {
    type V = ConsensusView;

    closed spec fn view(&self) -> ConsensusView {
        ConsensusView {
            head_seqno: self.finalized_head_seqno,
            head_slot: self.finalized_head_slot,
            head_block: self.finalized_head_block_id,
            head_before_split: self.finalized_head_before_split,
            before_split: self.before_split_by_block_id@,
            last_consensus: self.last_consensus_finalized_seqno,
            finalized: self.finalized_blocks@.dom(),
            pending: self.finalized_pending_body@,
            sent: self.finalized_delivery_sent@.dom(),
            sent_seqno: self.finalized_delivery_sent_seqno@,
            last_mc: self.last_mc_finalized_seqno,
            accepted_seqno: self.accepted_normal_head_seqno,
            accepted_block: self.accepted_normal_head_block_id,
            reports: self.misbehavior_reports@,
        }
    }
}

impl ConsensusController {
    /// The state at the start of a session.
    pub fn new(
        finalized_head_seqno: Option<u32>,
        last_consensus_finalized_seqno: Option<u32>,
        last_mc_finalized_seqno: Option<u32>,
        accepted_normal_head_seqno: u32,
    ) -> (r: Self)
        ensures
            r@ == (ConsensusView {
                head_seqno: finalized_head_seqno,
                head_slot: None,
                head_block: None,
                head_before_split: false,
                before_split: Map::empty(),
                last_consensus: last_consensus_finalized_seqno,
                finalized: Set::empty(),
                pending: Map::empty(),
                sent: Set::empty(),
                sent_seqno: Map::empty(),
                last_mc: last_mc_finalized_seqno,
                accepted_seqno: accepted_normal_head_seqno,
                accepted_block: None,
                reports: Seq::empty(),
            }),
    {
        let r = ConsensusController {
            finalized_head_seqno,
            finalized_head_slot: None,
            finalized_head_block_id: None,
            finalized_head_before_split: false,
            before_split_by_block_id: AssocMap::new(),
            last_consensus_finalized_seqno,
            finalized_blocks: AssocMap::new(),
            finalized_pending_body: AssocMap::new(),
            finalized_delivery_sent: AssocMap::new(),
            finalized_delivery_sent_seqno: AssocMap::new(),
            last_mc_finalized_seqno,
            accepted_normal_head_seqno,
            accepted_normal_head_block_id: None,
            misbehavior_reports: Vec::new(),
        };
        assert(r@.finalized =~= Set::empty());
        assert(r@.sent =~= Set::empty());
        r
    }

    /// Highest seqno of a finalized block.
    pub fn finalized_head_seqno(&self) -> (r: Option<u32>)
        ensures
            r == self@.head_seqno,
    {
        self.finalized_head_seqno
    }

    /// Slot of the finalized head.
    pub fn finalized_head_slot(&self) -> (r: Option<SlotIndex>)
        ensures
            r == self@.head_slot,
    {
        self.finalized_head_slot
    }

    /// Block of the finalized head.
    pub fn finalized_head_block_id(&self) -> (r: &Option<BlockIdExt>)
        ensures
            *r == self@.head_block,
    {
        &self.finalized_head_block_id
    }

    /// Whether the shard splits after the finalized head.
    pub fn finalized_head_before_split(&self) -> (r: bool)
        ensures
            r == self@.head_before_split,
    {
        self.finalized_head_before_split
    }

    /// Whether the shard splits after a block, if known.
    pub fn before_split_by_block_id(&self, block_id: &BlockIdExt) -> (r: Option<bool>)
        ensures
            r == lookup(self@.before_split, *block_id),
    {
        match self.before_split_by_block_id.get(block_id) {
            Some(flag) => Some(*flag),
            None => None,
        }
    }

    /// Highest finalized seqno for block production.
    pub fn last_consensus_finalized_seqno(&self) -> (r: Option<u32>)
        ensures
            r == self@.last_consensus,
    {
        self.last_consensus_finalized_seqno
    }

    /// Sets the finalized head.
    pub fn set_finalized_head(&mut self, seqno: u32, slot: SlotIndex, block_id: BlockIdExt)
        ensures
            final(self)@ == (ConsensusView {
                head_seqno: Some(seqno),
                head_slot: Some(slot),
                head_block: Some(block_id),
                ..old(self)@
            }),
    {
        self.finalized_head_seqno = Some(seqno);
        self.finalized_head_slot = Some(slot);
        self.finalized_head_block_id = Some(block_id);
    }

    /// Sets the highest finalized seqno for block production.
    pub fn set_last_consensus_finalized_seqno(&mut self, value: Option<u32>)
        ensures
            final(self)@ == (ConsensusView { last_consensus: value, ..old(self)@ }),
    {
        self.last_consensus_finalized_seqno = value;
    }

    /// Records whether the shard splits after a block.
    pub fn insert_before_split(&mut self, block_id: BlockIdExt, before_split: bool)
        ensures
            final(self)@ == (ConsensusView {
                before_split: old(self)@.before_split.insert(block_id, before_split),
                ..old(self)@
            }),
    {
        self.before_split_by_block_id.insert(block_id, before_split);
    }

    /// Highest seqno that the masterchain registered.
    pub fn last_mc_finalized_seqno(&self) -> (r: Option<u32>)
        ensures
            r == self@.last_mc,
    {
        self.last_mc_finalized_seqno
    }

    /// Sets the highest seqno that the masterchain registered.
    pub fn set_last_mc_finalized_seqno(&mut self, value: Option<u32>)
        ensures
            final(self)@ == (ConsensusView { last_mc: value, ..old(self)@ }),
    {
        self.last_mc_finalized_seqno = value;
    }

    /// Seqno of the accepted head.
    pub fn accepted_normal_head_seqno(&self) -> (r: u32)
        ensures
            r == self@.accepted_seqno,
    {
        self.accepted_normal_head_seqno
    }

    /// Block of the accepted head, if known.
    pub fn accepted_normal_head_block_id(&self) -> (r: &Option<BlockIdExt>)
        ensures
            *r == self@.accepted_block,
    {
        &self.accepted_normal_head_block_id
    }

    /// Whether the finalization of a candidate was applied.
    pub fn is_finalized_block(&self, id: &RawCandidateId) -> (r: bool)
        ensures
            r == self@.finalized.contains(*id),
    {
        self.finalized_blocks.contains_key(id)
    }

    /// Number of finalizations that wait for their blocks.
    pub fn finalized_pending_body_len(&self) -> (r: usize)
        ensures
            self@.pending.dom().finite(),
            r == self@.pending.dom().len(),
    {
        self.finalized_pending_body.len()
    }

    /// When a waiting finalization was seen first.
    pub fn finalized_pending_finalized_at(&self, id: &RawCandidateId) -> (r: Option<TimePoint>)
        ensures
            r == (match lookup(self@.pending, *id) {
                Some(e) => Some(e.finalized_at),
                None => None,
            }),
    {
        match self.finalized_pending_body.get(id) {
            Some(entry) => Some(entry.finalized_at),
            None => None,
        }
    }

    /// Block delivered at a seqno.
    pub fn finalized_delivery_sent_seqno_block_id(&self, seqno: u32) -> (r: Option<BlockIdExt>)
        ensures
            r == (match lookup(self@.sent_seqno, seqno) {
                Some(e) => Some(e.block_id),
                None => None,
            }),
    {
        match self.finalized_delivery_sent_seqno.get(&seqno) {
            Some(record) => Some(record.block_id),
            None => None,
        }
    }

    /// Whether the block of a candidate was delivered, or will not be.
    pub fn finalized_delivery_sent_contains(&self, id: &RawCandidateId) -> (r: bool)
        ensures
            r == self@.sent.contains(*id),
    {
        self.finalized_delivery_sent.contains_key(id)
    }

    /// Marks the finalization of a candidate as applied.
    pub fn insert_finalized_block(&mut self, id: RawCandidateId)
        ensures
            final(self)@ == (ConsensusView {
                finalized: old(self)@.finalized.insert(id),
                ..old(self)@
            }),
    {
        self.finalized_blocks.insert(id, ());
        assert(self@.finalized =~= old(self)@.finalized.insert(id));
    }

    /// Marks the block of a candidate as delivered.
    pub fn insert_finalized_delivery_sent(&mut self, id: RawCandidateId)
        ensures
            final(self)@ == (ConsensusView { sent: old(self)@.sent.insert(id), ..old(self)@ }),
    {
        self.finalized_delivery_sent.insert(id, ());
        assert(self@.sent =~= old(self)@.sent.insert(id));
    }

    /// Records the block delivered at a seqno.
    pub fn insert_finalized_delivery_sent_seqno(
        &mut self,
        seqno: u32,
        slot: SlotIndex,
        block_id: BlockIdExt,
    )
        ensures
            final(self)@ == (ConsensusView {
                sent_seqno: old(self)@.sent_seqno.insert(
                    seqno,
                    FinalizedSeqnoRecord { slot, block_id },
                ),
                ..old(self)@
            }),
    {
        self.finalized_delivery_sent_seqno.insert(seqno, FinalizedSeqnoRecord { slot, block_id });
    }

    /// Forgets waiting finalizations and delivered candidates of slots below
    /// `up_to_slot`. What was delivered at a seqno stays known.
    pub fn prune_below(&mut self, up_to_slot: SlotIndex)
        ensures
            final(self)@ == old(self)@.pruned(up_to_slot),
            final(self)@ == (ConsensusView {
                pending: kept(old(self)@.pending, ids_from(up_to_slot)),
                sent: old(self)@.sent.filter(ids_from(up_to_slot)),
                ..old(self)@
            }),
    {
        let limit: u32 = up_to_slot.0;
        let keep_pending = |id: &RawCandidateId, _e: &FinalizedEntry| -> (b: bool)
            ensures b == (id.slot.0 >= limit)
        {
            id.slot.0 >= limit
        };
        let keep_sent = |id: &RawCandidateId, _e: &()| -> (b: bool)
            ensures b == (id.slot.0 >= limit)
        {
            id.slot.0 >= limit
        };
        self.finalized_pending_body.retain(keep_pending);
        self.finalized_delivery_sent.retain(keep_sent);
        assert(self@.pending =~= kept(old(self)@.pending, ids_from(up_to_slot)));
        assert(self@.sent =~= old(self)@.sent.filter(ids_from(up_to_slot)));
    }
}

impl ConsensusView {
    /// Without waiting finalizations and delivered candidates of slots below `slot`.
    pub open spec fn pruned(self, slot: SlotIndex) -> ConsensusView {
        ConsensusView {
            pending: kept(self.pending, ids_from(slot)),
            sent: self.sent.filter(ids_from(slot)),
            ..self
        }
    }
}

/// What the rest of the session says about a vote that arrives.
#[derive(Clone, Copy, Debug, PartialEq, Eq, Structural)]
pub struct VoteContext {
    /// First slot that is not final.
    pub first_non_finalized_slot: SlotIndex,
    /// Whether the slot lies too far in the future to be looked at.
    pub too_far_ahead: bool,
    /// Whether the sender's signature verifies.
    pub signature_valid: bool,
    /// Whether vote and signature can be read.
    pub readable: bool,
}

/// Why a vote is dropped before it is counted.
#[derive(Clone, Copy, Debug, PartialEq, Eq, Structural)]
pub enum VoteDrop {
    InvalidSource,
    NegativeSlot,
    OldSlot,
    TooFarAhead,
    InvalidSignature,
    Unreadable,
}

/// Kind of a vote.
#[derive(Clone, Copy, Debug, PartialEq, Eq, Structural)]
pub enum VoteKind {
    Notarize,
    Finalize,
    Skip,
}

/// Kind of a travelling vote.
pub open spec fn kind_of(vote: UnsignedVote) -> VoteKind {
    match vote {
        UnsignedVote::Notarize(_) => VoteKind::Notarize,
        UnsignedVote::Finalize(_) => VoteKind::Finalize,
        UnsignedVote::Skip(_) => VoteKind::Skip,
    }
}

fn vote_kind(vote: &UnsignedVote) -> (r: VoteKind)
    ensures
        r == kind_of(*vote),
{
    match vote {
        UnsignedVote::Notarize(_) => VoteKind::Notarize,
        UnsignedVote::Finalize(_) => VoteKind::Finalize,
        UnsignedVote::Skip(_) => VoteKind::Skip,
    }
}

/// The first reason to drop a vote.
pub open spec fn vote_drop(
    source: ValidatorIndex,
    vote: UnsignedVote,
    ctx: VoteContext,
    desc: SessionDescription,
) -> Option<VoteDrop> {
    if source.0 >= desc.weights().len() {
        Some(VoteDrop::InvalidSource)
    } else if vote.slot_spec() < 0 {
        Some(VoteDrop::NegativeSlot)
    } else if vote.slot_spec() < ctx.first_non_finalized_slot.0 {
        Some(VoteDrop::OldSlot)
    } else if ctx.too_far_ahead {
        Some(VoteDrop::TooFarAhead)
    } else if !ctx.signature_valid {
        Some(VoteDrop::InvalidSignature)
    } else if !ctx.readable {
        Some(VoteDrop::Unreadable)
    } else {
        None
    }
}

/// The candidate that a vote or certificate names and the book lacks.
pub open spec fn missing_candidate(vote: UnsignedVote, book: BookView) -> Option<RawCandidateId> {
    match vote.hash_spec() {
        Some(hash) => {
            let id = RawCandidateId { slot: SlotIndex(vote.slot_spec() as u32), hash };
            if book.has_real_body(id) {
                None
            } else {
                Some(id)
            }
        },
        None => None,
    }
}

fn find_missing_candidate(vote: &UnsignedVote, book: &CandidateBook) -> (r: Option<RawCandidateId>)
    ensures
        r == missing_candidate(*vote, book@),
{
    match vote.block_hash() {
        Some(hash) => {
            let id: RawCandidateId = RawCandidateId { slot: SlotIndex(vote.slot() as u32), hash };
            if book.has_real_body(&id) {
                None
            } else {
                Some(id)
            }
        },
        None => None,
    }
}

/// What a vote led to.
#[derive(Debug)]
pub struct VoteReport {
    /// Whether the vote counts, so that the session is to move on.
    pub applied: bool,
    /// Why the vote was dropped.
    pub dropped: Option<VoteDrop>,
    /// Kind under which the vote was counted as received.
    pub counted: Option<VoteKind>,
    /// Vote to be stored.
    pub save: Option<RawVoteData>,
    /// Candidate to be asked for.
    pub request: Option<RawCandidateId>,
    /// Whether the vote was reported as misbehavior.
    pub misbehavior: bool,
}

/// The state after a vote was counted with this result.
pub open spec fn after_vote(
    s: ConsensusView,
    source: ValidatorIndex,
    result: VoteResult,
) -> ConsensusView {
    match result {
        VoteResult::Misbehavior(proof) => ConsensusView {
            reports: s.reports.push(
                MisbehaviorReport { validator_idx: source, slot: proof.slot_spec(), proof },
            ),
            ..s
        },
        _ => s,
    }
}

/// Whether `report` is what a vote with this result leads to.
pub open spec fn vote_report(
    report: VoteReport,
    vote: UnsignedVote,
    raw_vote: Seq<u8>,
    result: VoteResult,
    book: BookView,
) -> bool {
    &&& report.applied == (result is Applied)
    &&& report.dropped is None
    &&& report.counted == Some(kind_of(vote))
    &&& report.misbehavior == (result is Misbehavior)
    &&& match result {
        VoteResult::Applied => {
            &&& report.save is Some
            &&& report.save->Some_0@ == raw_vote
            &&& report.request == missing_candidate(vote, book)
        },
        _ => report.save is None && report.request is None,
    }
}

impl ConsensusController {
    /// The first reason to drop a vote.
    pub fn check_vote(
        source: ValidatorIndex,
        vote: &UnsignedVote,
        ctx: &VoteContext,
        desc: &SessionDescription,
    ) -> (r: Option<VoteDrop>)
        ensures
            r == vote_drop(source, *vote, *ctx, *desc),
            r is None <==> (source.0 as int) < desc.weights().len() && slot_named(*vote)
                >= ctx.first_non_finalized_slot.0 && !ctx.too_far_ahead && ctx.signature_valid
                && ctx.readable,
            r == Some(VoteDrop::OldSlot) ==> slot_named(*vote) < ctx.first_non_finalized_slot.0,
    {
        if !source.is_valid(desc.get_total_nodes()) {
            return Some(VoteDrop::InvalidSource);
        }
        if vote.slot() < 0 {
            return Some(VoteDrop::NegativeSlot);
        }
        if (vote.slot() as u32) < ctx.first_non_finalized_slot.0 {
            return Some(VoteDrop::OldSlot);
        }
        if ctx.too_far_ahead {
            return Some(VoteDrop::TooFarAhead);
        }
        if !ctx.signature_valid {
            return Some(VoteDrop::InvalidSignature);
        }
        if !ctx.readable {
            return Some(VoteDrop::Unreadable);
        }
        None
    }

    /// Deals with a vote that was counted with this result.
    pub fn finish_vote(
        &mut self,
        source: ValidatorIndex,
        vote: &UnsignedVote,
        raw_vote: &RawVoteData,
        result: VoteResult,
        book: &CandidateBook,
    ) -> (r: VoteReport)
        ensures
            final(self)@ == after_vote(old(self)@, source, result),
            vote_report(r, *vote, raw_vote@, result, book@),
    {
        let counted: Option<VoteKind> = Some(vote_kind(vote));
        match result {
            VoteResult::Applied => VoteReport {
                applied: true,
                dropped: None,
                counted,
                save: Some(raw_vote.share()),
                request: find_missing_candidate(vote, book),
                misbehavior: false,
            },
            VoteResult::Misbehavior(proof) => {
                let slot: SlotIndex = proof.slot();
                self.misbehavior_reports.push(
                    MisbehaviorReport { validator_idx: source, slot, proof },
                );
                VoteReport {
                    applied: false,
                    dropped: None,
                    counted,
                    save: None,
                    request: None,
                    misbehavior: true,
                }
            },
            _ => VoteReport {
                applied: false,
                dropped: None,
                counted,
                save: None,
                request: None,
                misbehavior: false,
            },
        }
    }

    /// Takes in a vote from the validator `source_idx`.
    ///
    /// `count` counts a vote that is not dropped and says what became of it.
    pub fn on_vote<F: FnOnce(ValidatorIndex, UnsignedVote) -> VoteResult>(
        &mut self,
        source_idx: u32,
        vote: &UnsignedVote,
        raw_vote: &RawVoteData,
        ctx: &VoteContext,
        book: &CandidateBook,
        desc: &SessionDescription,
        count: F,
    ) -> (r: VoteReport)
        requires
            vote_drop(ValidatorIndex(source_idx), *vote, *ctx, *desc) is None ==> call_requires(
                count,
                (ValidatorIndex(source_idx), *vote),
            ),
        ensures
            match vote_drop(ValidatorIndex(source_idx), *vote, *ctx, *desc) {
                Some(d) => {
                    &&& final(self)@ == old(self)@
                    &&& r == (VoteReport {
                        applied: false,
                        dropped: Some(d),
                        counted: None,
                        save: None,
                        request: None,
                        misbehavior: false,
                    })
                },
                None => exists|result: VoteResult|
                    {
                        &&& #[trigger] call_ensures(
                            count,
                            (ValidatorIndex(source_idx), *vote),
                            result,
                        )
                        &&& final(self)@ == after_vote(
                            old(self)@,
                            ValidatorIndex(source_idx),
                            result,
                        )
                        &&& vote_report(r, *vote, raw_vote@, result, book@)
                    },
            },
            r.dropped is None <==> (source_idx as int) < desc.weights().len() && slot_named(*vote)
                >= ctx.first_non_finalized_slot.0 && !ctx.too_far_ahead && ctx.signature_valid
                && ctx.readable,
            r.dropped == Some(VoteDrop::OldSlot) ==> slot_named(*vote)
                < ctx.first_non_finalized_slot.0,
    {
        let source: ValidatorIndex = ValidatorIndex(source_idx);
        match Self::check_vote(source, vote, ctx, desc) {
            Some(d) => VoteReport {
                applied: false,
                dropped: Some(d),
                counted: None,
                save: None,
                request: None,
                misbehavior: false,
            },
            None => {
                let result: VoteResult = count(source, *vote);
                let ghost outcome = result;
                let report = self.finish_vote(source, vote, raw_vote, result, book);
                assert(call_ensures(count, (ValidatorIndex(source_idx), *vote), outcome));
                report
            },
        }
    }
}

/// A certificate as it travels, with what reading and verifying it gave.
#[derive(Debug)]
pub struct ArrivedCertificate {
    /// The certified vote.
    pub vote: UnsignedVote,
    /// The signatures.
    pub signatures: Vec<WireSignature>,
    /// Which of the signatures verify.
    pub valid: Vec<bool>,
    /// The certified vote once it is read, unless it cannot be.
    pub readable_vote: Option<Vote>,
}

impl ArrivedCertificate {
    /// Each signature was judged, and the vote that was read is the one that
    /// arrived.
    pub open spec fn wf(self) -> bool {
        &&& self.signatures@.len() == self.valid@.len()
        &&& self.readable_vote matches Some(v) ==> unsigned(v) == self.vote
    }

    /// Whether each signature was judged, and the vote that was read is the one
    /// that arrived.
    pub fn is_wf(&self) -> (r: bool)
        ensures
            r == self.wf(),
    {
        self.signatures.len() == self.valid.len() && match &self.readable_vote {
            Some(v) => v.to_tl_unsigned() == self.vote,
            None => true,
        }
    }
}

/// Why a certificate is dropped.
#[derive(Clone, Copy, Debug, PartialEq, Eq, Structural)]
pub enum CertificateDrop {
    NegativeSlot,
    InvalidSource,
    OldSlot,
    /// The certificate does not hold; its sender is banned for a while.
    Unverified(CertificateError),
}

/// What storing a certificate gave.
#[derive(Clone, Copy, Debug, PartialEq, Eq, Structural)]
pub enum StoreOutcome {
    /// The certificate is new.
    New,
    /// The certificate was there already.
    Known,
    /// The certificate contradicts another one.
    Conflict,
}

/// What a certificate led to.
#[derive(Debug)]
pub struct CertificateReport {
    /// Whether the certificate holds, so that the session is to move on.
    pub verified: bool,
    /// Why the certificate was dropped.
    pub dropped: Option<CertificateDrop>,
    /// Candidate to be asked for.
    pub request: Option<RawCandidateId>,
    /// Slot and kind of a certificate that is new.
    pub accepted: Option<(SlotIndex, VoteKind)>,
    /// Whether the certificate contradicts another one.
    pub conflict: bool,
}

/// Kind of a vote.
pub open spec fn kind_of_vote(vote: Vote) -> VoteKind {
    match vote {
        Vote::Notarize(_) => VoteKind::Notarize,
        Vote::Finalize(_) => VoteKind::Finalize,
        Vote::Skip(_) => VoteKind::Skip,
    }
}

/// Reason to drop a certificate before it is verified.
pub open spec fn certificate_drop(
    source: ValidatorIndex,
    vote: UnsignedVote,
    first_non_finalized_slot: SlotIndex,
    desc: SessionDescription,
) -> Option<CertificateDrop> {
    if vote.slot_spec() < 0 {
        Some(CertificateDrop::NegativeSlot)
    } else if source.0 >= desc.weights().len() {
        Some(CertificateDrop::InvalidSource)
    } else if vote.slot_spec() < first_non_finalized_slot.0 {
        Some(CertificateDrop::OldSlot)
    } else {
        None
    }
}

/// The report of a certificate that was dropped.
pub open spec fn dropped_certificate(d: CertificateDrop) -> CertificateReport {
    CertificateReport {
        verified: false,
        dropped: Some(d),
        request: None,
        accepted: None,
        conflict: false,
    }
}

/// The report of a certificate that holds.
pub open spec fn verified_certificate(
    arrived: ArrivedCertificate,
    cert: Certificate<Vote>,
    outcome: StoreOutcome,
    book: BookView,
) -> CertificateReport {
    CertificateReport {
        verified: true,
        dropped: None,
        request: missing_candidate(arrived.vote, book),
        accepted: if outcome is New {
            Some((cert.vote.slot_spec(), kind_of_vote(cert.vote)))
        } else {
            None
        },
        conflict: outcome is Conflict,
    }
}

impl ConsensusController {
    /// The first reason to drop a certificate before its signatures are verified.
    pub fn precheck_certificate(
        source: ValidatorIndex,
        vote: &UnsignedVote,
        first_non_finalized_slot: SlotIndex,
        desc: &SessionDescription,
    ) -> (r: Option<CertificateDrop>)
        ensures
            r == certificate_drop(source, *vote, first_non_finalized_slot, *desc),
            r is None <==> (source.0 as int) < desc.weights().len() && slot_named(*vote)
                >= first_non_finalized_slot.0,
            r == Some(CertificateDrop::OldSlot) ==> slot_named(*vote) < first_non_finalized_slot.0,
    {
        if vote.slot() < 0 {
            return Some(CertificateDrop::NegativeSlot);
        }
        if !source.is_valid(desc.get_total_nodes()) {
            return Some(CertificateDrop::InvalidSource);
        }
        if (vote.slot() as u32) < first_non_finalized_slot.0 {
            return Some(CertificateDrop::OldSlot);
        }
        None
    }

    /// Checks a certificate from the validator `source`: reasons to drop it
    /// come first, then its signatures and their weight.
    pub fn check_certificate(
        source: ValidatorIndex,
        arrived: &ArrivedCertificate,
        first_non_finalized_slot: SlotIndex,
        desc: &SessionDescription,
    ) -> (r: Result<Certificate<Vote>, CertificateDrop>)
        requires
            arrived.wf(),
        ensures
            match certificate_drop(source, arrived.vote, first_non_finalized_slot, *desc) {
                Some(d) => r == Err::<Certificate<Vote>, _>(d),
                None => match r {
                    Ok(cert) => arrived.readable_vote is Some && certified(
                        Ok(cert),
                        arrived.readable_vote->Some_0,
                        arrived.signatures@,
                        arrived.valid@,
                        *desc,
                    ),
                    Err(d) => d matches CertificateDrop::Unverified(e) && match arrived.readable_vote {
                        None => e == CertificateError::UnreadableVote,
                        Some(v) => certified(
                            Err(e),
                            v,
                            arrived.signatures@,
                            arrived.valid@,
                            *desc,
                        ),
                    },
                },
            },
            r is Ok <==> (source.0 as int) < desc.weights().len() && slot_named(arrived.vote)
                >= first_non_finalized_slot.0 && arrived.readable_vote is Some && carried(
                arrived.signatures@,
                arrived.valid@,
                *desc,
            ),
            r == Err::<Certificate<Vote>, _>(CertificateDrop::OldSlot) ==> slot_named(arrived.vote)
                < first_non_finalized_slot.0,
    {
        match Self::precheck_certificate(source, &arrived.vote, first_non_finalized_slot, desc) {
            Some(d) => {
                return Err(d);
            },
            None => {},
        }
        let certificate = Certificate::<Vote>::from_tl(
            arrived.readable_vote,
            &arrived.signatures,
            &arrived.valid,
            desc,
        );
        proof {
            if arrived.readable_vote is Some {
                good_certificates_are_taken_in(
                    source,
                    *arrived,
                    first_non_finalized_slot,
                    *desc,
                    certificate,
                );
            }
        }
        match certificate {
            Ok(cert) => Ok(cert),
            Err(e) => Err(CertificateDrop::Unverified(e)),
        }
    }

    /// Takes in a certificate from the validator `source_idx`.
    ///
    /// `store` stores a certificate that holds.
    pub fn on_certificate<F: FnOnce(&Certificate<Vote>) -> StoreOutcome>(
        source_idx: u32,
        arrived: &ArrivedCertificate,
        first_non_finalized_slot: SlotIndex,
        book: &CandidateBook,
        desc: &SessionDescription,
        store: F,
    ) -> (r: CertificateReport)
        requires
            arrived.wf(),
            forall|cert: &Certificate<Vote>|
                certificate_drop(
                    ValidatorIndex(source_idx),
                    arrived.vote,
                    first_non_finalized_slot,
                    *desc,
                ) is None && arrived.readable_vote is Some && certified(
                    Ok(*cert),
                    arrived.readable_vote->Some_0,
                    arrived.signatures@,
                    arrived.valid@,
                    *desc,
                ) ==> #[trigger] call_requires(store, (cert,)),
        ensures
            match certificate_drop(
                ValidatorIndex(source_idx),
                arrived.vote,
                first_non_finalized_slot,
                *desc,
            ) {
                Some(d) => r == dropped_certificate(d),
                None => {
                    ||| exists|cert: Certificate<Vote>, outcome: StoreOutcome|
                        {
                            &&& arrived.readable_vote is Some
                            &&& certified(
                                Ok(cert),
                                arrived.readable_vote->Some_0,
                                arrived.signatures@,
                                arrived.valid@,
                                *desc,
                            )
                            &&& #[trigger] call_ensures(store, (&cert,), outcome)
                            &&& r == verified_certificate(*arrived, cert, outcome, book@)
                        }
                    ||| exists|e: CertificateError|
                        {
                            &&& r == #[trigger] dropped_certificate(CertificateDrop::Unverified(e))
                            &&& match arrived.readable_vote {
                                None => e == CertificateError::UnreadableVote,
                                Some(v) => certified(
                                    Err::<Certificate<Vote>, _>(e),
                                    v,
                                    arrived.signatures@,
                                    arrived.valid@,
                                    *desc,
                                ),
                            }
                        }
                },
            },
            r.verified <==> (source_idx as int) < desc.weights().len() && slot_named(arrived.vote)
                >= first_non_finalized_slot.0 && arrived.readable_vote is Some && carried(
                arrived.signatures@,
                arrived.valid@,
                *desc,
            ),
            r.verified <==> r.dropped is None,
            r.dropped == Some(CertificateDrop::OldSlot) ==> slot_named(arrived.vote)
                < first_non_finalized_slot.0,
    {
        let source: ValidatorIndex = ValidatorIndex(source_idx);
        match Self::check_certificate(source, arrived, first_non_finalized_slot, desc) {
            Err(d) => {
                proof {
                    if let CertificateDrop::Unverified(e) = d {
                        assert(dropped_certificate(CertificateDrop::Unverified(e)).dropped
                            == Some(d));
                    }
                }
                CertificateReport {
                    verified: false,
                    dropped: Some(d),
                    request: None,
                    accepted: None,
                    conflict: false,
                }
            },
            Ok(cert) => {
                let request: Option<RawCandidateId> = find_missing_candidate(&arrived.vote, book);
                let outcome: StoreOutcome = store(&cert);
                assert(call_ensures(store, (&cert,), outcome));
                let kind: VoteKind = match &cert.vote {
                    Vote::Notarize(_) => VoteKind::Notarize,
                    Vote::Finalize(_) => VoteKind::Finalize,
                    Vote::Skip(_) => VoteKind::Skip,
                };
                let accepted: Option<(SlotIndex, VoteKind)> = match outcome {
                    StoreOutcome::New => Some((cert.vote.slot(), kind)),
                    _ => None,
                };
                CertificateReport {
                    verified: true,
                    dropped: None,
                    request,
                    accepted,
                    conflict: matches!(outcome, StoreOutcome::Conflict),
                }
            },
        }
    }
}

/// Seqno and block of the accepted head once `seqno` is accepted.
pub open spec fn accepted_with_seqno(
    head: (u32, Option<BlockIdExt>),
    seqno: u32,
) -> (u32, Option<BlockIdExt>) {
    if seqno > head.0 {
        (
            seqno,
            if head.1 is Some && head.1->Some_0.seq_no < seqno {
                None
            } else {
                head.1
            },
        )
    } else {
        head
    }
}

/// Seqno and block of the accepted head once `block` is accepted.
pub open spec fn accepted_with_block(
    head: (u32, Option<BlockIdExt>),
    block: BlockIdExt,
) -> (u32, Option<BlockIdExt>) {
    let next = accepted_with_seqno(head, block.seq_no);
    (
        next.0,
        if next.1 is Some && !next.1->Some_0.before(block) {
            next.1
        } else {
            Some(block)
        },
    )
}

/// The larger of two numbers.
pub open spec fn larger(a: u32, b: u32) -> u32 {
    if a >= b {
        a
    } else {
        b
    }
}

/// The state after the masterchain registered `top`.
pub open spec fn after_applied_top(
    s: ConsensusView,
    top: BlockIdExt,
    desc: SessionDescription,
) -> ConsensusView {
    if top.shard_id != desc.shard_ident() {
        s
    } else {
        let mc = larger(top.seq_no, or_zero(s.last_mc));
        let accepted = if top.seq_no != 0 {
            accepted_with_block((s.accepted_seqno, s.accepted_block), top)
        } else {
            (s.accepted_seqno, s.accepted_block)
        };
        ConsensusView {
            last_mc: Some(mc),
            last_consensus: Some(larger(mc, or_zero(s.last_consensus))),
            accepted_seqno: accepted.0,
            accepted_block: accepted.1,
            ..s
        }
    }
}

impl ConsensusController {
    /// Moves the accepted head to at least `seqno`; a block below it is forgotten.
    fn advance_accepted_normal_head_seqno(&mut self, seqno: u32)
        ensures
            ({
                let head = accepted_with_seqno(
                    (old(self)@.accepted_seqno, old(self)@.accepted_block),
                    seqno,
                );
                final(self)@ == (ConsensusView {
                    accepted_seqno: head.0,
                    accepted_block: head.1,
                    ..old(self)@
                })
            }),
    {
        if seqno > self.accepted_normal_head_seqno {
            self.accepted_normal_head_seqno = seqno;
            match self.accepted_normal_head_block_id {
                Some(b) => {
                    if b.seq_no < seqno {
                        self.accepted_normal_head_block_id = None;
                    }
                },
                None => {},
            }
        }
    }

    /// Moves the accepted head to at least `block_id`.
    pub fn advance_accepted_normal_head_block(&mut self, block_id: BlockIdExt)
        ensures
            ({
                let head = accepted_with_block(
                    (old(self)@.accepted_seqno, old(self)@.accepted_block),
                    block_id,
                );
                final(self)@ == (ConsensusView {
                    accepted_seqno: head.0,
                    accepted_block: head.1,
                    ..old(self)@
                })
            }),
    {
        self.advance_accepted_normal_head_seqno(block_id.seq_no);
        match self.accepted_normal_head_block_id {
            Some(current) => {
                if current.less(&block_id) {
                    self.accepted_normal_head_block_id = Some(block_id);
                }
            },
            None => {
                self.accepted_normal_head_block_id = Some(block_id);
            },
        }
    }

    /// Takes in a block that the masterchain registered; says whether it was
    /// one of this session's shard, so that the session is to wake up.
    pub fn set_mc_finalized_block(&mut self, applied_top: BlockIdExt, desc: &SessionDescription) -> (r:
        bool)
        ensures
            r == (applied_top.shard_id == desc.shard_ident()),
            final(self)@ == after_applied_top(old(self)@, applied_top, *desc),
    {
        if applied_top.shard_id != *desc.get_shard() {
            return false;
        }
        let seqno: u32 = applied_top.seq_no;
        let prev_mc: u32 = match self.last_mc_finalized_seqno {
            Some(n) => n,
            None => 0,
        };
        let updated_mc: u32 = if seqno >= prev_mc {
            seqno
        } else {
            prev_mc
        };
        self.last_mc_finalized_seqno = Some(updated_mc);
        let prev_consensus: u32 = match self.last_consensus_finalized_seqno {
            Some(n) => n,
            None => 0,
        };
        self.last_consensus_finalized_seqno = Some(
            if updated_mc >= prev_consensus {
                updated_mc
            } else {
                prev_consensus
            },
        );
        if seqno != 0 {
            self.advance_accepted_normal_head_block(applied_top);
        } else {
            self.advance_accepted_normal_head_seqno(seqno);
        }
        true
    }
}

/// The masterchain cursor, the production cursor and the accepted head never
/// move back when the masterchain registers a block.
pub proof fn applied_top_never_moves_back(
    s: ConsensusView,
    top: BlockIdExt,
    desc: SessionDescription,
)
    ensures
        ({
            let t = after_applied_top(s, top, desc);
            &&& or_zero(t.last_mc) >= or_zero(s.last_mc)
            &&& or_zero(t.last_consensus) >= or_zero(s.last_consensus)
            &&& t.accepted_seqno >= s.accepted_seqno
            &&& top.shard_id == desc.shard_ident() ==> {
                &&& or_zero(t.last_mc) >= top.seq_no
                &&& or_zero(t.last_consensus) >= or_zero(t.last_mc)
                &&& t.accepted_seqno >= top.seq_no
            }
        }),
{
}

/// Accepting a block keeps the block of the accepted head at the head's seqno
/// or above.
pub proof fn accepted_block_is_not_stale(head: (u32, Option<BlockIdExt>), block: BlockIdExt)
    requires
        head.1 matches Some(b) ==> b.seq_no >= head.0,
        head.1 matches Some(b) ==> b.shard_id == block.shard_id,
        block.seq_no >= head.0 || head.1 is Some,
    ensures
        ({
            let next = accepted_with_block(head, block);
            &&& next.1 is Some
            &&& next.1->Some_0.seq_no >= next.0
            &&& next.1->Some_0.shard_id == block.shard_id
            &&& next.0 >= head.0
            &&& !next.1->Some_0.before(block)
        }),
{
    crate::chain::blocks_are_ordered(block, block, block);
}

/// Length of an Ed25519 signature.
pub const SIGNATURE_LEN: usize = 64;

/// One signature of a block, split in its two halves.
#[derive(Debug)]
pub struct SignaturePair {
    pub validator_idx: ValidatorIndex,
    pub r: Vec<u8>,
    pub s: Vec<u8>,
}

/// Signatures of a finalized block with what they sign.
#[derive(Debug)]
pub struct SignatureSet {
    /// Slot of the signed candidate.
    pub slot: SlotIndex,
    /// Serialized input of the hash of the signed candidate's identifier.
    pub hash_data: Vec<u8>,
    /// The signatures.
    pub pairs: Vec<SignaturePair>,
    /// Weight of the signers.
    pub weight: u64,
    /// Whether the votes finalize, rather than notarize.
    pub is_final: bool,
}

/// Whether `sigs` can stand under a finalized block: validators of the session
/// signed, they weigh enough, and the signatures are whole.
pub open spec fn deliverable(sigs: Seq<VoteSignature>, desc: SessionDescription) -> bool {
    &&& sigs.len() > 0
    &&& forall|i: int|
        0 <= i < sigs.len() ==> {
            &&& (#[trigger] sigs[i]).validator_idx.0 < desc.weights().len()
            &&& sigs[i].signature@.len() >= SIGNATURE_LEN
        }
    &&& desc.threshold() <= weight_of(desc.weights(), voters(sigs)) <= u64::MAX
}

/// Whether `set` holds the signatures `sigs`.
pub open spec fn is_signature_set(
    set: SignatureSet,
    sigs: Seq<VoteSignature>,
    slot: SlotIndex,
    hash_data: Seq<u8>,
    is_final: bool,
    desc: SessionDescription,
) -> bool {
    &&& set.slot == slot
    &&& set.hash_data@ == hash_data
    &&& set.is_final == is_final
    &&& set.weight == weight_of(desc.weights(), voters(sigs))
    &&& set.pairs@.len() == sigs.len()
    &&& forall|i: int|
        0 <= i < sigs.len() ==> {
            &&& (#[trigger] set.pairs@[i]).validator_idx == sigs[i].validator_idx
            &&& set.pairs@[i].r@ == sigs[i].signature@.subrange(0, 32)
            &&& set.pairs@[i].s@ == sigs[i].signature@.subrange(32, 64)
        }
}

/// Whether `sigs` can stand under a finalized block.
pub fn is_deliverable(sigs: &Vec<VoteSignature>, desc: &SessionDescription) -> (r: bool)
    ensures
        r == deliverable(sigs@, *desc),
{
    let ghost names = voters(sigs@);
    let ghost w = desc.weights();
    let nodes: usize = desc.get_total_nodes();
    let mut weight: u64 = 0;
    let mut i: usize = 0;
    while i < sigs.len()
        invariant
            i <= sigs@.len(),
            names == voters(sigs@),
            w == desc.weights(),
            nodes == w.len(),
            weight == weight_of(w, names.take(i as int)),
            forall|j: int|
                0 <= j < i ==> {
                    &&& (#[trigger] sigs@[j]).validator_idx.0 < w.len()
                    &&& sigs@[j].signature@.len() >= SIGNATURE_LEN
                },
        decreases sigs@.len() - i,
    {
        let sig: &VoteSignature = &sigs[i];
        if sig.validator_idx.is_out_of_bounds(nodes) || sig.signature.len() < SIGNATURE_LEN {
            return false;
        }
        proof {
            assert(names[i as int] == sig.validator_idx);
            assert(names.take(i as int + 1).drop_last() =~= names.take(i as int));
        }
        match weight.checked_add(desc.get_node_weight(sig.validator_idx)) {
            Some(sum) => {
                weight = sum;
            },
            None => {
                proof {
                    lemma_weight_of_prefix(w, names, i as int + 1);
                }
                return false;
            },
        }
        i += 1;
    }
    assert(names.take(i as int) =~= names);
    sigs.len() > 0 && weight >= desc.get_threshold_66()
}

fn copy_range(bytes: &Vec<u8>, from: usize, to: usize) -> (r: Vec<u8>)
    requires
        from <= to <= bytes@.len(),
    ensures
        r@ == bytes@.subrange(from as int, to as int),
{
    let mut out: Vec<u8> = Vec::new();
    let mut i: usize = from;
    while i < to
        invariant
            from <= i <= to <= bytes@.len(),
            out@ == bytes@.subrange(from as int, i as int),
        decreases to - i,
    {
        out.push(bytes[i]);
        assert(bytes@.subrange(from as int, i as int + 1) =~= bytes@.subrange(
            from as int,
            i as int,
        ).push(bytes@[i as int]));
        i += 1;
    }
    out
}

/// Puts signatures under a finalized block.
pub fn build_simplex_signatures_variant(
    sigs: &Vec<VoteSignature>,
    slot: SlotIndex,
    hash_data: &Vec<u8>,
    is_final: bool,
    desc: &SessionDescription,
) -> (r: SignatureSet)
    requires
        deliverable(sigs@, *desc),
        hash_data@.len() > 0,
    ensures
        is_signature_set(r, sigs@, slot, hash_data@, is_final, *desc),
{
    let ghost names = voters(sigs@);
    let ghost w = desc.weights();
    let mut pairs: Vec<SignaturePair> = Vec::new();
    let mut weight: u64 = 0;
    let mut i: usize = 0;
    while i < sigs.len()
        invariant
            i <= sigs@.len(),
            names == voters(sigs@),
            w == desc.weights(),
            deliverable(sigs@, *desc),
            weight_of(w, names) <= u64::MAX,
            weight == weight_of(w, names.take(i as int)),
            pairs@.len() == i,
            forall|j: int|
                0 <= j < i ==> {
                    &&& (#[trigger] pairs@[j]).validator_idx == sigs@[j].validator_idx
                    &&& pairs@[j].r@ == sigs@[j].signature@.subrange(0, 32)
                    &&& pairs@[j].s@ == sigs@[j].signature@.subrange(32, 64)
                },
        decreases sigs@.len() - i,
    {
        proof {
            lemma_weight_of_prefix(w, names, i as int + 1);
            assert(names.take(i as int + 1).drop_last() =~= names.take(i as int));
            assert(names[i as int] == sigs@[i as int].validator_idx);
            assert(sigs@[i as int].signature@.len() >= SIGNATURE_LEN);
        }
        let sig: &VoteSignature = &sigs[i];
        weight = weight + desc.get_node_weight(sig.validator_idx);
        pairs.push(
            SignaturePair {
                validator_idx: sig.validator_idx,
                r: copy_range(&sig.signature, 0, 32),
                s: copy_range(&sig.signature, 32, 64),
            },
        );
        i += 1;
    }
    assert(names.take(i as int) =~= names);
    SignatureSet { slot, hash_data: hash_data.clone(), pairs, weight, is_final }
}

/// A finalized block, as it is handed to the validator layer.
#[derive(Debug)]
pub struct FinalizedCallback {
    pub block_id: BlockIdExt,
    /// Leader of the candidate's slot.
    pub source: BlockSourceInfo,
    pub root_hash: UInt256,
    pub file_hash: UInt256,
    pub data: Vec<u8>,
    pub signatures: SignatureSet,
}

/// Why finalization cannot go on.
#[derive(Clone, Copy, Debug, PartialEq, Eq, Structural)]
pub enum FinalizationBreach {
    /// Another block was delivered at this seqno.
    SeqnoReused { seqno: u32, existing: BlockIdExt, new: BlockIdExt },
    /// What this candidate's identifier was hashed from is not known.
    MissingHashData(RawCandidateId),
    /// The signatures cannot stand under the block of this candidate.
    UnusableSignatures(RawCandidateId),
    /// A masterchain block could not be delivered.
    CallbackLost(RawCandidateId),
}

/// A block that was handed over to the validator layer.
#[derive(Clone, Copy, Debug, PartialEq, Eq, Structural)]
pub struct Delivery {
    /// Candidate of the block.
    pub id: RawCandidateId,
    /// Whether under the finalization certificate, rather than a notarization
    /// certificate.
    pub is_final: bool,
    /// Whether that worked.
    pub ok: bool,
}

/// How a walk over finalized blocks ended.
#[derive(Clone, Copy, Debug, PartialEq, Eq, Structural)]
pub enum WalkEnd {
    /// All blocks were dealt with.
    Complete,
    /// Something is missing.
    Incomplete,
    /// The parent chain is longer than [`MAX_CHAIN_DEPTH`].
    TooDeep,
    /// The parent chain comes back to a candidate.
    Cycle,
    /// The walk cannot go on.
    Breach(FinalizationBreach),
}

/// Result of a walk over finalized blocks.
#[derive(Debug)]
pub struct WalkReport {
    pub end: WalkEnd,
    /// Records that were to be stored, and whether that worked.
    pub writes: Vec<(FinalizedBlockRecord, bool)>,
    /// Blocks that were handed over.
    pub deliveries: Vec<Delivery>,
    /// Candidates to be asked for at once.
    pub requests: Vec<RawCandidateId>,
    /// Slots whose state is to be reset.
    pub resets: Vec<SlotIndex>,
    /// Slots of which the first candidate is now known to be finalized.
    pub firsts: Vec<SlotIndex>,
    /// Slot of the candidate whose finalization was applied last, if one was: as
    /// of now, finalization last moved on there.
    pub last_finalized: Option<SlotIndex>,
}

/// State of a walk over finalized blocks.
#[verifier::ext_equal]
pub struct WalkState {
    pub s: ConsensusView,
    pub writes: Seq<(FinalizedBlockRecord, bool)>,
    pub deliveries: Seq<Delivery>,
    pub requests: Seq<RawCandidateId>,
    pub resets: Seq<SlotIndex>,
    pub firsts: Seq<SlotIndex>,
    pub last_finalized: Option<SlotIndex>,
    /// Nothing is missing so far.
    pub complete: bool,
}

/// What a walk over finalized blocks reads.
pub struct WalkEnv {
    pub book: BookView,
    /// Candidates with a notarization certificate.
    pub notarized: Set<RawCandidateId>,
    /// Slots that consensus is done with.
    pub progressed: Set<SlotIndex>,
    /// Slots of which a finalized candidate was noted before.
    pub noted: Set<SlotIndex>,
    /// Whether the session's shard is the masterchain.
    pub masterchain: bool,
    /// The candidate whose finalization is followed.
    pub trigger: RawCandidateId,
    /// Whether the signatures of the finalization can stand under a block.
    pub final_usable: bool,
    /// Candidates whose notarization has signatures that can stand under a block.
    pub notar_usable: Set<RawCandidateId>,
    /// Whether storing the record of a candidate works.
    pub persisted: spec_fn(RawCandidateId) -> bool,
    /// Whether handing over the block of a candidate works.
    pub delivered: spec_fn(RawCandidateId) -> bool,
}

impl WalkEnv {
    /// Serialized input of the hash of the trigger's identifier.
    pub open spec fn trigger_hash_data(self) -> Seq<u8> {
        if self.book.received.dom().contains(self.trigger) {
            self.book.received[self.trigger].candidate_hash_data_bytes
        } else {
            Seq::<u8>::empty()
        }
    }

    /// Whether the signatures that go under the candidate's block can.
    pub open spec fn usable(self, id: RawCandidateId, has_final_cert: bool) -> bool {
        if has_final_cert {
            self.final_usable
        } else {
            self.notar_usable.contains(id)
        }
    }
}

/// The record of a finalized candidate.
pub open spec fn finalized_record(
    id: RawCandidateId,
    rec: ReceivedView,
    is_final: bool,
) -> FinalizedBlockRecord {
    FinalizedBlockRecord {
        candidate_id: id,
        block_id: rec.block_id,
        parent: rec.parent_id,
        is_final,
    }
}

/// Whether a finalized candidate becomes the head.
pub open spec fn replaces_head(s: ConsensusView, rec: ReceivedView) -> bool {
    match s.head_slot {
        Some(current) => rec.block_id.seq_no > or_zero(s.head_seqno) || (rec.block_id.seq_no
            == or_zero(s.head_seqno) && rec.slot.0 >= current.0),
        None => true,
    }
}

/// The state once the finalization of a candidate is applied.
pub open spec fn applied_state(
    s: ConsensusView,
    id: RawCandidateId,
    rec: ReceivedView,
) -> ConsensusView {
    let seqno = rec.block_id.seq_no;
    let replace = replaces_head(s, rec);
    let accepted = accepted_with_block((s.accepted_seqno, s.accepted_block), rec.block_id);
    ConsensusView {
        head_seqno: if !rec.is_empty && seqno > or_zero(s.head_seqno) {
            Some(seqno)
        } else {
            s.head_seqno
        },
        head_slot: if replace {
            Some(rec.slot)
        } else {
            s.head_slot
        },
        head_block: if replace {
            Some(rec.block_id)
        } else {
            s.head_block
        },
        head_before_split: if !rec.is_empty && replace {
            rec.before_split == Some(true)
        } else {
            s.head_before_split
        },
        before_split: if !rec.is_empty && replace && rec.before_split is Some {
            s.before_split.insert(rec.block_id, rec.before_split->Some_0)
        } else {
            s.before_split
        },
        last_consensus: if seqno > or_zero(s.last_consensus) {
            Some(seqno)
        } else {
            s.last_consensus
        },
        accepted_seqno: if rec.is_empty {
            s.accepted_seqno
        } else {
            accepted.0
        },
        accepted_block: if rec.is_empty {
            s.accepted_block
        } else {
            accepted.1
        },
        finalized: s.finalized.insert(id),
        ..s
    }
}

/// What is to be done about delivering a finalized candidate's block.
#[derive(Clone, Copy, Debug, PartialEq, Eq, Structural)]
pub enum EmitVerdict {
    /// Nothing: there is no block of its own, or it was dealt with.
    Nothing,
    /// Nothing: the block was delivered under another candidate.
    SameBlock,
    /// The block must not be delivered: another one was at its seqno.
    Conflict(BlockIdExt),
    /// Nothing: blocks like this one are not delivered.
    Suppressed,
    /// The notarization certificate is missing.
    MissingCertificate,
    /// The block is to be delivered.
    Deliver,
}

/// Whether a block is delivered at all: on the masterchain under a
/// finalization certificate only, elsewhere from the registered seqno on.
pub open spec fn emits(s: ConsensusView, block: BlockIdExt, masterchain: bool, has_final_cert: bool) -> bool {
    if masterchain {
        has_final_cert
    } else {
        block.seq_no >= or_zero(s.last_mc)
    }
}

/// What is to be done about delivering a finalized candidate's block.
pub open spec fn emit_verdict(
    s: ConsensusView,
    id: RawCandidateId,
    rec: ReceivedView,
    masterchain: bool,
    has_final_cert: bool,
    notarized: bool,
) -> EmitVerdict {
    let seqno = rec.block_id.seq_no;
    if rec.is_empty || s.sent.contains(id) {
        EmitVerdict::Nothing
    } else if s.sent_seqno.dom().contains(seqno) {
        if s.sent_seqno[seqno].block_id == rec.block_id {
            EmitVerdict::SameBlock
        } else {
            EmitVerdict::Conflict(s.sent_seqno[seqno].block_id)
        }
    } else if !emits(s, rec.block_id, masterchain, has_final_cert) {
        EmitVerdict::Suppressed
    } else if !has_final_cert && !notarized {
        EmitVerdict::MissingCertificate
    } else {
        EmitVerdict::Deliver
    }
}

/// The state once the block of a candidate was delivered.
pub open spec fn delivered_state(
    s: ConsensusView,
    id: RawCandidateId,
    rec: ReceivedView,
) -> ConsensusView {
    ConsensusView {
        sent: s.sent.insert(id),
        sent_seqno: s.sent_seqno.insert(
            rec.block_id.seq_no,
            FinalizedSeqnoRecord { slot: id.slot, block_id: rec.block_id },
        ),
        ..s
    }
}

/// Why the block of a finalized candidate cannot be delivered though it is to
/// be: another block was at its seqno, or there is nothing to sign, or the
/// signatures are not `usable`.
pub open spec fn emit_breach(
    s: ConsensusView,
    id: RawCandidateId,
    rec: ReceivedView,
    masterchain: bool,
    has_final_cert: bool,
    notarized: bool,
    trigger: RawCandidateId,
    trigger_hash_data: Seq<u8>,
    usable: bool,
) -> Option<FinalizationBreach> {
    match emit_verdict(s, id, rec, masterchain, has_final_cert, notarized) {
        EmitVerdict::Conflict(existing) => Some(
            FinalizationBreach::SeqnoReused {
                seqno: rec.block_id.seq_no,
                existing,
                new: rec.block_id,
            },
        ),
        EmitVerdict::Deliver => if has_final_cert && trigger_hash_data.len() == 0 {
            Some(FinalizationBreach::MissingHashData(trigger))
        } else if !has_final_cert && rec.candidate_hash_data_bytes.len() == 0 {
            Some(FinalizationBreach::MissingHashData(id))
        } else if !usable {
            Some(FinalizationBreach::UnusableSignatures(id))
        } else {
            None
        },
        _ => None,
    }
}

/// Whether the finalization of a candidate is still to be applied: it was not
/// before, and there is more than the block that the candidate stands for.
pub open spec fn to_apply(s: ConsensusView, id: RawCandidateId, rec: ReceivedView) -> bool {
    !s.finalized.contains(id) && rec.candidate_hash_data_bytes.len() > 0
}

/// The walk once the record of the candidate was to be stored, which worked if
/// `ok` says so, and its finalization is applied. The flag says whether nothing
/// is left to be applied: so it is too where it was applied before, or where
/// there is no more than the block that the candidate stands for.
pub open spec fn apply_step(
    w: WalkState,
    id: RawCandidateId,
    rec: ReceivedView,
    has_final_cert: bool,
    progressed: bool,
    noted: bool,
    ok: bool,
) -> (WalkState, bool) {
    if !to_apply(w.s, id, rec) {
        (w, true)
    } else {
        let firsts = if noted || w.firsts.contains(rec.slot) {
            w.firsts
        } else {
            w.firsts.push(rec.slot)
        };
        let writes = w.writes.push((finalized_record(id, rec, has_final_cert), ok));
        if ok {
            (
                WalkState {
                    s: applied_state(w.s, id, rec),
                    writes,
                    resets: if progressed {
                        w.resets.push(rec.slot)
                    } else {
                        w.resets
                    },
                    firsts,
                    last_finalized: Some(rec.slot),
                    ..w
                },
                true,
            )
        } else {
            (WalkState { writes, firsts, complete: false, ..w }, false)
        }
    }
}

/// The walk once the candidate's block is delivered, if it is to be and nothing
/// stands against it; that worked if `ok` says so.
pub open spec fn emit_step(
    w: WalkState,
    id: RawCandidateId,
    rec: ReceivedView,
    masterchain: bool,
    has_final_cert: bool,
    notarized: bool,
    ok: bool,
) -> (WalkState, Option<FinalizationBreach>) {
    match emit_verdict(w.s, id, rec, masterchain, has_final_cert, notarized) {
        EmitVerdict::Nothing | EmitVerdict::Conflict(_) => (w, None),
        EmitVerdict::SameBlock | EmitVerdict::Suppressed => (
            WalkState { s: ConsensusView { sent: w.s.sent.insert(id), ..w.s }, ..w },
            None,
        ),
        EmitVerdict::MissingCertificate => (
            WalkState { requests: w.requests.push(id), complete: false, ..w },
            None,
        ),
        EmitVerdict::Deliver => {
            let deliveries = w.deliveries.push(Delivery { id, is_final: has_final_cert, ok });
            if ok {
                (WalkState { s: delivered_state(w.s, id, rec), deliveries, ..w }, None)
            } else {
                (
                    WalkState { deliveries, complete: false, ..w },
                    if masterchain && has_final_cert {
                        Some(FinalizationBreach::CallbackLost(id))
                    } else {
                        None
                    },
                )
            }
        },
    }
}

/// The walk once the finalization of the candidate is applied; the flag says
/// whether storing its record worked.
pub open spec fn walk_applied(
    w: WalkState,
    id: RawCandidateId,
    rec: ReceivedView,
    has_final_cert: bool,
    env: WalkEnv,
) -> (WalkState, bool) {
    apply_step(
        w,
        id,
        rec,
        has_final_cert,
        env.progressed.contains(rec.slot),
        env.noted.contains(rec.slot),
        (env.persisted)(id),
    )
}

/// The walk once the candidate's block is delivered, if it is to be.
pub open spec fn walk_emitted(
    w: WalkState,
    id: RawCandidateId,
    rec: ReceivedView,
    has_final_cert: bool,
    env: WalkEnv,
) -> (WalkState, Option<FinalizationBreach>) {
    match emit_breach(
        w.s,
        id,
        rec,
        env.masterchain,
        has_final_cert,
        env.notarized.contains(id),
        env.trigger,
        env.trigger_hash_data(),
        env.usable(id, has_final_cert),
    ) {
        Some(b) => (w, Some(b)),
        None => emit_step(
            w,
            id,
            rec,
            env.masterchain,
            has_final_cert,
            env.notarized.contains(id),
            (env.delivered)(id),
        ),
    }
}

/// The walk once a candidate that is there itself was dealt with, and how the
/// walk ended if it did.
pub open spec fn walk_body(
    w: WalkState,
    id: RawCandidateId,
    rec: ReceivedView,
    has_final_cert: bool,
    env: WalkEnv,
) -> (WalkState, Option<WalkEnd>) {
    let (applied, ok) = walk_applied(w, id, rec, has_final_cert, env);
    if !ok {
        (applied, Some(WalkEnd::Incomplete))
    } else {
        let (emitted, breach) = walk_emitted(applied, id, rec, has_final_cert, env);
        (
            emitted,
            match breach {
                Some(b) => Some(WalkEnd::Breach(b)),
                None => None,
            },
        )
    }
}

/// One step of a walk: the walk after it, and either where to go on and
/// whether under the finalization certificate, or how the walk ended.
pub open spec fn walk_step(
    w: WalkState,
    id: RawCandidateId,
    has_final_cert: bool,
    env: WalkEnv,
) -> (WalkState, Result<(RawCandidateId, bool), WalkEnd>) {
    let ended = |v: WalkState| if v.complete {
        WalkEnd::Complete
    } else {
        WalkEnd::Incomplete
    };
    if !env.book.received.dom().contains(id) {
        (
            WalkState { requests: w.requests.push(id), complete: false, ..w },
            Err(WalkEnd::Incomplete),
        )
    } else {
        let rec = env.book.received[id];
        let marked = |v: WalkState| if rec.is_empty {
            v
        } else {
            WalkState { s: ConsensusView { sent: v.s.sent.insert(id), ..v.s }, ..v }
        };
        if env.masterchain && !has_final_cert {
            (marked(w), Err(ended(w)))
        } else {
            let below = !has_final_cert && rec.block_id.seq_no < or_zero(w.s.last_mc);
            let (done, end) = if rec.candidate_hash_data_bytes.len() > 0 {
                walk_body(w, id, rec, has_final_cert, env)
            } else if below {
                (w, None)
            } else {
                (WalkState { requests: w.requests.push(id), complete: false, ..w }, None)
            };
            match end {
                Some(end) => (done, Err(end)),
                None => if below {
                    (marked(done), Err(ended(done)))
                } else {
                    match rec.parent_id {
                        None => (done, Err(ended(done))),
                        Some(p) => (done, Ok((p, has_final_cert && rec.is_empty))),
                    }
                },
            }
        }
    }
}

/// The walk from `id` up the parent chain, over at most `fuel` candidates.
pub open spec fn walk(
    w: WalkState,
    id: RawCandidateId,
    has_final_cert: bool,
    visited: Set<RawCandidateId>,
    fuel: nat,
    env: WalkEnv,
) -> (WalkState, WalkEnd)
    decreases fuel,
{
    if fuel == 0 {
        (w, WalkEnd::TooDeep)
    } else if visited.contains(id) {
        (w, WalkEnd::Cycle)
    } else {
        let step = walk_step(w, id, has_final_cert, env);
        match step.1 {
            Err(end) => (step.0, end),
            Ok((next, cert)) => walk(
                step.0,
                next,
                cert,
                visited.insert(id),
                (fuel - 1) as nat,
                env,
            ),
        }
    }
}

/// Whether the log says that it worked for this candidate.
pub open spec fn worked(log: Seq<(RawCandidateId, bool)>) -> spec_fn(RawCandidateId) -> bool {
    |id: RawCandidateId| exists|i: int| 0 <= i < log.len() && #[trigger] log[i] == (id, true)
}

/// The log of stored records by candidate.
pub open spec fn write_log(writes: Seq<(FinalizedBlockRecord, bool)>) -> Seq<(RawCandidateId, bool)> {
    writes.map_values(|e: (FinalizedBlockRecord, bool)| (e.0.candidate_id, e.1))
}

/// The log of delivered blocks by candidate.
pub open spec fn delivery_log(deliveries: Seq<Delivery>) -> Seq<(RawCandidateId, bool)> {
    deliveries.map_values(|e: Delivery| (e.id, e.ok))
}

/// Whether `cb` hands over the block of a candidate.
pub open spec fn is_callback(
    cb: FinalizedCallback,
    rec: ReceivedView,
    has_final_cert: bool,
    trigger: RawCandidateId,
    trigger_hash_data: Seq<u8>,
    final_sigs: Seq<VoteSignature>,
    notar_sigs: Seq<VoteSignature>,
    desc: SessionDescription,
) -> bool {
    &&& cb.block_id == rec.block_id
    &&& cb.source == roundless_source(rec.source_idx)
    &&& cb.root_hash == rec.root_hash
    &&& cb.file_hash == rec.file_hash
    &&& cb.data@ == rec.data
    &&& if has_final_cert {
        is_signature_set(cb.signatures, final_sigs, trigger.slot, trigger_hash_data, true, desc)
    } else {
        is_signature_set(
            cb.signatures,
            notar_sigs,
            rec.slot,
            rec.candidate_hash_data_bytes,
            false,
            desc,
        )
    }
}

impl ConsensusController {
    /// Whether a block is delivered at all.
    fn should_emit_on_block_finalized_for_block(
        &self,
        block_id: &BlockIdExt,
        has_final_cert: bool,
        desc: &SessionDescription,
    ) -> (r: bool)
        ensures
            r == emits(self@, *block_id, desc.shard_ident().masterchain(), has_final_cert),
    {
        if desc.get_shard().is_masterchain() {
            return has_final_cert;
        }
        let floor: u32 = match self.last_mc_finalized_seqno {
            Some(n) => n,
            None => 0,
        };
        block_id.seq_no >= floor
    }

    /// What is to be done about delivering a finalized candidate's block.
    pub fn plan_emit(
        &self,
        id: &RawCandidateId,
        received: &ReceivedCandidate,
        has_final_cert: bool,
        notarized: bool,
        desc: &SessionDescription,
    ) -> (r: EmitVerdict)
        ensures
            r == emit_verdict(
                self@,
                *id,
                received@,
                desc.shard_ident().masterchain(),
                has_final_cert,
                notarized,
            ),
    {
        if received.is_empty || self.finalized_delivery_sent.contains_key(id) {
            return EmitVerdict::Nothing;
        }
        match self.finalized_delivery_sent_seqno.get(&received.block_id.seq_no) {
            Some(existing) => {
                if existing.block_id == received.block_id {
                    return EmitVerdict::SameBlock;
                }
                return EmitVerdict::Conflict(existing.block_id);
            },
            None => {},
        }
        if !self.should_emit_on_block_finalized_for_block(
            &received.block_id,
            has_final_cert,
            desc,
        ) {
            return EmitVerdict::Suppressed;
        }
        if !has_final_cert && !notarized {
            return EmitVerdict::MissingCertificate;
        }
        EmitVerdict::Deliver
    }

    /// Applies the finalization of a candidate whose record is stored.
    pub fn apply_finalized_state(&mut self, id: &RawCandidateId, received: &ReceivedCandidate)
        ensures
            final(self)@ == applied_state(old(self)@, *id, received@),
    {
        let slot: SlotIndex = received.slot;
        let seqno: u32 = received.block_id.seq_no;
        let previous: u32 = match self.finalized_head_seqno {
            Some(n) => n,
            None => 0,
        };
        let replace: bool = match self.finalized_head_slot {
            Some(current) => seqno > previous || (seqno == previous && slot.0 >= current.0),
            None => true,
        };
        if !received.is_empty {
            if seqno > previous {
                self.finalized_head_seqno = Some(seqno);
            }
            self.advance_accepted_normal_head_block(received.block_id);
            if replace {
                match received.before_split {
                    Some(flag) => {
                        self.finalized_head_before_split = flag;
                        self.before_split_by_block_id.insert(received.block_id, flag);
                    },
                    None => {
                        self.finalized_head_before_split = false;
                    },
                }
            }
        }
        if replace {
            self.finalized_head_slot = Some(slot);
            self.finalized_head_block_id = Some(received.block_id);
        }
        let consensus: u32 = match self.last_consensus_finalized_seqno {
            Some(n) => n,
            None => 0,
        };
        if seqno > consensus {
            self.last_consensus_finalized_seqno = Some(seqno);
        }
        self.insert_finalized_block(*id);
    }
}

/// What finalization reads of the rest of the session.
pub struct FinalizationInputs<'a> {
    /// The candidate book.
    pub book: &'a CandidateBook,
    /// Notarization certificates.
    pub notar_certs: &'a AssocMap<RawCandidateId, NotarCert>,
    /// Slots that consensus is done with.
    pub progressed: &'a KeySet<SlotIndex>,
    /// Slots of which a finalized candidate was noted before.
    pub noted: &'a KeySet<SlotIndex>,
    /// Parameters of the session.
    pub desc: &'a SessionDescription,
}

impl<'a> FinalizationInputs<'a> {
    /// Whether the signatures that go under the block of a candidate can: those
    /// of the finalization, or else those of the candidate's own notarization.
    pub open spec fn usable(
        self,
        final_sigs: Seq<VoteSignature>,
        id: RawCandidateId,
        has_final_cert: bool,
    ) -> bool {
        if has_final_cert {
            deliverable(final_sigs, *self.desc)
        } else {
            self.notar_certs@.dom().contains(id) && deliverable(
                self.notar_certs@[id].signatures@,
                *self.desc,
            )
        }
    }

    /// What a walk from `trigger` reads, given the signatures of its finalization
    /// and for which candidates storing and delivering works.
    pub open spec fn env(
        self,
        trigger: RawCandidateId,
        final_sigs: Seq<VoteSignature>,
        persisted: spec_fn(RawCandidateId) -> bool,
        delivered: spec_fn(RawCandidateId) -> bool,
    ) -> WalkEnv {
        WalkEnv {
            book: self.book@,
            notarized: self.notar_certs@.dom(),
            progressed: self.progressed@.dom(),
            noted: self.noted@.dom(),
            masterchain: self.desc.shard_ident().masterchain(),
            trigger,
            final_usable: self.usable(final_sigs, trigger, true),
            notar_usable: Set::new(|id: RawCandidateId| self.usable(final_sigs, id, false)),
            persisted,
            delivered,
        }
    }

    /// Serialized input of the hash of a candidate's identifier.
    pub open spec fn hash_data_of(self, id: RawCandidateId) -> Seq<u8> {
        if self.book@.received.dom().contains(id) {
            self.book@.received[id].candidate_hash_data_bytes
        } else {
            Seq::<u8>::empty()
        }
    }
}

/// Log of a walk while it goes on.
#[derive(Debug)]
pub struct WalkLog {
    pub writes: Vec<(FinalizedBlockRecord, bool)>,
    pub deliveries: Vec<Delivery>,
    pub requests: Vec<RawCandidateId>,
    pub resets: Vec<SlotIndex>,
    pub firsts: Vec<SlotIndex>,
    pub last_finalized: Option<SlotIndex>,
    pub complete: bool,
}

impl WalkLog {
    /// The walk with this log and the state `s`.
    pub open spec fn state(self, s: ConsensusView) -> WalkState {
        WalkState {
            s,
            writes: self.writes@,
            deliveries: self.deliveries@,
            requests: self.requests@,
            resets: self.resets@,
            firsts: self.firsts@,
            last_finalized: self.last_finalized,
            complete: self.complete,
        }
    }
}

/// The walk before its first step.
pub open spec fn walk_start(s: ConsensusView) -> WalkState {
    WalkState {
        s,
        writes: Seq::empty(),
        deliveries: Seq::empty(),
        requests: Seq::empty(),
        resets: Seq::empty(),
        firsts: Seq::empty(),
        last_finalized: None,
        complete: true,
    }
}

/// Whether `works` says of each logged candidate what the log says.
pub open spec fn agrees(
    works: spec_fn(RawCandidateId) -> bool,
    log: Seq<(RawCandidateId, bool)>,
) -> bool {
    forall|i: int| 0 <= i < log.len() ==> works((#[trigger] log[i]).0) == log[i].1
}

/// Whether the logged candidates are different ones of `ids`.
pub open spec fn logs_once(log: Seq<(RawCandidateId, bool)>, ids: Set<RawCandidateId>) -> bool {
    &&& forall|i: int| 0 <= i < log.len() ==> ids.contains((#[trigger] log[i]).0)
    &&& forall|i: int, j: int| 0 <= i < j < log.len() ==> log[i].0 != log[j].0
}

proof fn lemma_worked_agrees(log: Seq<(RawCandidateId, bool)>, ids: Set<RawCandidateId>)
    requires
        logs_once(log, ids),
    ensures
        agrees(worked(log), log),
{
    assert forall|i: int| 0 <= i < log.len() implies worked(log)((#[trigger] log[i]).0)
        == log[i].1 by {
        if log[i].1 {
            assert(log[i] == (log[i].0, true));
        } else if worked(log)(log[i].0) {
            let j = choose|j: int| 0 <= j < log.len() && #[trigger] log[j] == (log[i].0, true);
            if i < j {
                assert(log[i].0 != log[j].0);
            } else if j < i {
                assert(log[j].0 != log[i].0);
            }
        }
    }
}

/// Whether `h` hands over the block of the candidate that `e` tells of, with the
/// answer that it tells.
pub open spec fn is_handed(
    h: (FinalizedCallback, bool),
    e: Delivery,
    inputs: FinalizationInputs,
    trigger: RawCandidateId,
    final_sigs: Seq<VoteSignature>,
) -> bool {
    &&& h.1 == e.ok
    &&& is_callback(
        h.0,
        inputs.book@.received[e.id],
        e.is_final,
        trigger,
        inputs.hash_data_of(trigger),
        final_sigs,
        inputs.notar_certs@[e.id].signatures@,
        *inputs.desc,
    )
}

/// Whether the blocks that were handed over from `before` to `after` are those
/// that `deliveries` tells of, and no others.
pub open spec fn deliveries_made(
    before: Seq<(FinalizedCallback, bool)>,
    after: Seq<(FinalizedCallback, bool)>,
    deliveries: Seq<Delivery>,
    inputs: FinalizationInputs,
    trigger: RawCandidateId,
    final_sigs: Seq<VoteSignature>,
) -> bool {
    &&& after.len() == before.len() + deliveries.len()
    &&& forall|i: int| 0 <= i < before.len() ==> #[trigger] after[i] == before[i]
    &&& forall|i: int|
        0 <= i < deliveries.len() ==> is_handed(
            after[before.len() + i],
            #[trigger] deliveries[i],
            inputs,
            trigger,
            final_sigs,
        )
}

/// Whether the calls that were made from `before` to `after` are those that
/// `writes` and `deliveries` tell of, and no others.
pub open spec fn calls_match(
    before: BackendCalls,
    after: BackendCalls,
    writes: Seq<(FinalizedBlockRecord, bool)>,
    deliveries: Seq<Delivery>,
    inputs: FinalizationInputs,
    trigger: RawCandidateId,
    final_sigs: Seq<VoteSignature>,
) -> bool {
    &&& after.stored == before.stored + writes
    &&& deliveries_made(
        before.handed,
        after.handed,
        deliveries,
        inputs,
        trigger,
        final_sigs,
    )
}

fn lists_slot(slots: &Vec<SlotIndex>, slot: SlotIndex) -> (r: bool)
    ensures
        r == slots@.contains(slot),
{
    let mut i: usize = 0;
    while i < slots.len()
        invariant
            i <= slots@.len(),
            forall|j: int| 0 <= j < i ==> slots@[j] != slot,
        decreases slots@.len() - i,
    {
        if slots[i] == slot {
            assert(slots@[i as int] == slot);
            return true;
        }
        i += 1;
    }
    false
}

impl ConsensusController {
    /// Stores the record of a finalized candidate and applies its finalization,
    /// unless that was done before or the candidate itself is not there; says
    /// whether nothing is left to be applied.
    pub fn maybe_apply_finalized_state<B: ConsensusBackend>(
        &mut self,
        id: &RawCandidateId,
        received: &ReceivedCandidate,
        is_final: bool,
        progressed: &KeySet<SlotIndex>,
        noted: &KeySet<SlotIndex>,
        backend: &mut B,
        log: &mut WalkLog,
    ) -> (r: bool)
        ensures
            (final(log).state(final(self)@), r) == apply_step(
                old(log).state(old(self)@),
                *id,
                received@,
                is_final,
                progressed@.dom().contains(received@.slot),
                noted@.dom().contains(received@.slot),
                final(log).writes@.last().1,
            ),
            final(backend).calls() == (if to_apply(old(self)@, *id, received@) {
                BackendCalls {
                    stored: old(backend).calls().stored.push(
                        (finalized_record(*id, received@, is_final), final(log).writes@.last().1),
                    ),
                    ..old(backend).calls()
                }
            } else {
                old(backend).calls()
            }),
    {
        if self.finalized_blocks.contains_key(id) {
            return true;
        }
        if received.candidate_hash_data_bytes.len() == 0 {
            return true;
        }
        if !noted.contains_key(&received.slot) && !lists_slot(&log.firsts, received.slot) {
            log.firsts.push(received.slot);
        }
        let record: FinalizedBlockRecord = FinalizedBlockRecord {
            candidate_id: *id,
            block_id: received.block_id,
            parent: received.parent_id,
            is_final,
        };
        let ok: bool = backend.persist_finalized_block(record);
        log.writes.push((record, ok));
        if !ok {
            log.complete = false;
            return false;
        }
        self.apply_finalized_state(id, received);
        log.last_finalized = Some(received.slot);
        if progressed.contains_key(&received.slot) {
            log.resets.push(received.slot);
        }
        true
    }
}

/// Signatures with the same contents.
pub open spec fn same_views(a: Seq<VoteSignature>, b: Seq<VoteSignature>) -> bool {
    &&& a.len() == b.len()
    &&& forall|i: int| 0 <= i < a.len() ==> (#[trigger] a[i])@ == b[i]@
}

impl ConsensusController {
    /// Why the block of a finalized candidate cannot be delivered though it is
    /// to be.
    pub fn check_emit(
        &self,
        id: &RawCandidateId,
        received: &ReceivedCandidate,
        has_final_cert: bool,
        trigger: &RawCandidateId,
        trigger_hash_data: &Vec<u8>,
        final_sigs: &Vec<VoteSignature>,
        inputs: &FinalizationInputs,
    ) -> (r: Option<FinalizationBreach>)
        ensures
            r == emit_breach(
                self@,
                *id,
                received@,
                inputs.desc.shard_ident().masterchain(),
                has_final_cert,
                inputs.notar_certs@.dom().contains(*id),
                *trigger,
                trigger_hash_data@,
                inputs.usable(final_sigs@, *id, has_final_cert),
            ),
    {
        let notar: Option<&NotarCert> = inputs.notar_certs.get(id);
        match self.plan_emit(id, received, has_final_cert, notar.is_some(), inputs.desc) {
            EmitVerdict::Conflict(existing) => Some(
                FinalizationBreach::SeqnoReused {
                    seqno: received.block_id.seq_no,
                    existing,
                    new: received.block_id,
                },
            ),
            EmitVerdict::Deliver => {
                if has_final_cert && trigger_hash_data.len() == 0 {
                    return Some(FinalizationBreach::MissingHashData(*trigger));
                }
                if !has_final_cert && received.candidate_hash_data_bytes.len() == 0 {
                    return Some(FinalizationBreach::MissingHashData(*id));
                }
                let usable: bool = if has_final_cert {
                    is_deliverable(final_sigs, inputs.desc)
                } else {
                    match notar {
                        Some(cert) => is_deliverable(&cert.signatures, inputs.desc),
                        None => false,
                    }
                };
                if usable {
                    None
                } else {
                    Some(FinalizationBreach::UnusableSignatures(*id))
                }
            },
            _ => None,
        }
    }

    /// Delivers the block of a finalized candidate if it is to be delivered;
    /// says whether a masterchain block was lost.
    ///
    /// Under the finalization certificate the signatures are those of the
    /// finalization and sign the candidate `trigger`; else they are those of
    /// the candidate's own notarization.
    pub fn try_emit_recursive_finalized_callback<B: ConsensusBackend>(
        &mut self,
        id: &RawCandidateId,
        received: &ReceivedCandidate,
        has_final_cert: bool,
        trigger: &RawCandidateId,
        trigger_hash_data: &Vec<u8>,
        final_sigs: &Vec<VoteSignature>,
        inputs: &FinalizationInputs,
        backend: &mut B,
        log: &mut WalkLog,
    ) -> (r: Option<FinalizationBreach>)
        requires
            emit_breach(
                old(self)@,
                *id,
                received@,
                inputs.desc.shard_ident().masterchain(),
                has_final_cert,
                inputs.notar_certs@.dom().contains(*id),
                *trigger,
                trigger_hash_data@,
                inputs.usable(final_sigs@, *id, has_final_cert),
            ) is None,
        ensures
            (final(log).state(final(self)@), r) == emit_step(
                old(log).state(old(self)@),
                *id,
                received@,
                inputs.desc.shard_ident().masterchain(),
                has_final_cert,
                inputs.notar_certs@.dom().contains(*id),
                final(log).deliveries@.last().ok,
            ),
            final(backend).calls().stored == old(backend).calls().stored,
            emit_verdict(
                old(self)@,
                *id,
                received@,
                inputs.desc.shard_ident().masterchain(),
                has_final_cert,
                inputs.notar_certs@.dom().contains(*id),
            ) is Deliver ==> {
                let h = final(backend).calls().handed.last();
                &&& final(backend).calls().handed == old(backend).calls().handed.push(h)
                &&& h.1 == final(log).deliveries@.last().ok
                &&& is_callback(
                    h.0,
                    received@,
                    has_final_cert,
                    *trigger,
                    trigger_hash_data@,
                    final_sigs@,
                    inputs.notar_certs@[*id].signatures@,
                    *inputs.desc,
                )
            },
            !(emit_verdict(
                old(self)@,
                *id,
                received@,
                inputs.desc.shard_ident().masterchain(),
                has_final_cert,
                inputs.notar_certs@.dom().contains(*id),
            ) is Deliver) ==> final(backend).calls() == old(backend).calls(),
    {
        let notar: Option<&NotarCert> = inputs.notar_certs.get(id);
        match self.plan_emit(id, received, has_final_cert, notar.is_some(), inputs.desc) {
            EmitVerdict::Nothing | EmitVerdict::Conflict(_) => None,
            EmitVerdict::SameBlock => {
                self.insert_finalized_delivery_sent(*id);
                None
            },
            EmitVerdict::Suppressed => {
                self.insert_finalized_delivery_sent(*id);
                None
            },
            EmitVerdict::MissingCertificate => {
                log.requests.push(*id);
                log.complete = false;
                None
            },
            EmitVerdict::Deliver => {
                let signatures: SignatureSet = if has_final_cert {
                    build_simplex_signatures_variant(
                        final_sigs,
                        trigger.slot,
                        trigger_hash_data,
                        true,
                        inputs.desc,
                    )
                } else {
                    let cert: &NotarCert = notar.unwrap();
                    build_simplex_signatures_variant(
                        &cert.signatures,
                        received.slot,
                        &received.candidate_hash_data_bytes,
                        false,
                        inputs.desc,
                    )
                };
                let callback = FinalizedCallback {
                    block_id: received.block_id,
                    source: BlockSourceInfo::roundless(received.source_idx),
                    root_hash: received.root_hash,
                    file_hash: received.file_hash,
                    data: received.data.clone(),
                    signatures,
                };
                let ok: bool = backend.notify_block_finalized(callback);
                log.deliveries.push(Delivery { id: *id, is_final: has_final_cert, ok });
                if ok {
                    self.insert_finalized_delivery_sent(*id);
                    self.insert_finalized_delivery_sent_seqno(
                        received.block_id.seq_no,
                        id.slot,
                        received.block_id,
                    );
                    None
                } else {
                    log.complete = false;
                    if inputs.desc.get_shard().is_masterchain() && has_final_cert {
                        Some(FinalizationBreach::CallbackLost(*id))
                    } else {
                        None
                    }
                }
            },
        }
    }
}

/// Whether `after` is `before`, or `before` and one entry more, for `id`.
pub open spec fn logs_at_most(
    before: Seq<(RawCandidateId, bool)>,
    after: Seq<(RawCandidateId, bool)>,
    id: RawCandidateId,
) -> bool {
    after == before || (after == before.push(after.last()) && after.last().0 == id)
}

proof fn lemma_log_grows(
    before: Seq<(RawCandidateId, bool)>,
    after: Seq<(RawCandidateId, bool)>,
    ids: Set<RawCandidateId>,
    id: RawCandidateId,
)
    requires
        logs_at_most(before, after, id),
        logs_once(before, ids),
        !ids.contains(id),
    ensures
        logs_once(after, ids.insert(id)),
        forall|works: spec_fn(RawCandidateId) -> bool|
            agrees(works, after) ==> #[trigger] agrees(works, before),
{
    assert forall|works: spec_fn(RawCandidateId) -> bool| agrees(works, after) implies
        #[trigger] agrees(works, before) by {
        assert forall|i: int| 0 <= i < before.len() implies works((#[trigger] before[i]).0)
            == before[i].1 by {
            assert(after[i] == before[i]);
        }
    }
}

impl ConsensusController {
    /// Deals with a candidate that is there itself; says how the walk ended, if
    /// it did.
    fn walk_present<B: ConsensusBackend>(
        &mut self,
        current: &RawCandidateId,
        received: &ReceivedCandidate,
        has_final_cert: bool,
        trigger: &RawCandidateId,
        trigger_hash_data: &Vec<u8>,
        final_sigs: &Vec<VoteSignature>,
        inputs: &FinalizationInputs,
        backend: &mut B,
        log: &mut WalkLog,
        Ghost(start): Ghost<BackendCalls>,
    ) -> (r: Option<WalkEnd>)
        requires
            inputs.book@.received.dom().contains(*current),
            inputs.book@.received[*current] == received@,
            trigger_hash_data@ == inputs.hash_data_of(*trigger),
            calls_match(
                start,
                old(backend).calls(),
                old(log).writes@,
                old(log).deliveries@,
                *inputs,
                *trigger,
                final_sigs@,
            ),
        ensures
            forall|p: spec_fn(RawCandidateId) -> bool, d: spec_fn(RawCandidateId) -> bool|
                agrees(p, write_log(final(log).writes@)) && agrees(
                    d,
                    delivery_log(final(log).deliveries@),
                ) ==> walk_body(
                    old(log).state(old(self)@),
                    *current,
                    received@,
                    has_final_cert,
                    #[trigger] inputs.env(*trigger, final_sigs@, p, d),
                ) == (final(log).state(final(self)@), r),
            logs_at_most(
                write_log(old(log).writes@),
                write_log(final(log).writes@),
                *current,
            ),
            logs_at_most(
                delivery_log(old(log).deliveries@),
                delivery_log(final(log).deliveries@),
                *current,
            ),
            calls_match(
                start,
                final(backend).calls(),
                final(log).writes@,
                final(log).deliveries@,
                *inputs,
                *trigger,
                final_sigs@,
            ),
            final(self)@.last_mc == old(self)@.last_mc,
    {
        let ghost writes0 = log.writes@;
        let ghost deliveries0 = log.deliveries@;
        let applied: bool = self.maybe_apply_finalized_state(
            current,
            received,
            has_final_cert,
            inputs.progressed,
            inputs.noted,
            backend,
            log,
        );
        proof {
            if log.writes@ != writes0 {
                let e = (*current, log.writes@.last().1);
                assert(write_log(log.writes@)[writes0.len() as int] == e);
                assert(write_log(log.writes@) =~= write_log(writes0).push(e));
            }
        }
        if !applied {
            return Some(WalkEnd::Incomplete);
        }
        match self.check_emit(
            current,
            received,
            has_final_cert,
            trigger,
            trigger_hash_data,
            final_sigs,
            inputs,
        ) {
            Some(b) => {
                return Some(WalkEnd::Breach(b));
            },
            None => {},
        }
        let lost: Option<FinalizationBreach> = self.try_emit_recursive_finalized_callback(
            current,
            received,
            has_final_cert,
            trigger,
            trigger_hash_data,
            final_sigs,
            inputs,
            backend,
            log,
        );
        proof {
            if log.deliveries@ != deliveries0 {
                let e = (*current, log.deliveries@.last().ok);
                assert(delivery_log(log.deliveries@)[deliveries0.len() as int] == e);
                assert(delivery_log(log.deliveries@) =~= delivery_log(deliveries0).push(e));
            }
        }
        match lost {
            Some(b) => Some(WalkEnd::Breach(b)),
            None => None,
        }
    }

    /// Makes one step of a walk: deals with the candidate `current` and says
    /// where to go on, or how the walk ended.
    fn walk_one<B: ConsensusBackend>(
        &mut self,
        current: &RawCandidateId,
        has_final_cert: bool,
        trigger: &RawCandidateId,
        trigger_hash_data: &Vec<u8>,
        final_sigs: &Vec<VoteSignature>,
        inputs: &FinalizationInputs,
        backend: &mut B,
        log: &mut WalkLog,
        Ghost(start): Ghost<BackendCalls>,
    ) -> (r: Result<(RawCandidateId, bool), WalkEnd>)
        requires
            trigger_hash_data@ == inputs.hash_data_of(*trigger),
            calls_match(
                start,
                old(backend).calls(),
                old(log).writes@,
                old(log).deliveries@,
                *inputs,
                *trigger,
                final_sigs@,
            ),
        ensures
            forall|p: spec_fn(RawCandidateId) -> bool, d: spec_fn(RawCandidateId) -> bool|
                agrees(p, write_log(final(log).writes@)) && agrees(
                    d,
                    delivery_log(final(log).deliveries@),
                ) ==> #[trigger] walk_step(
                    old(log).state(old(self)@),
                    *current,
                    has_final_cert,
                    inputs.env(*trigger, final_sigs@, p, d),
                ) == (final(log).state(final(self)@), r),
            logs_at_most(
                write_log(old(log).writes@),
                write_log(final(log).writes@),
                *current,
            ),
            logs_at_most(
                delivery_log(old(log).deliveries@),
                delivery_log(final(log).deliveries@),
                *current,
            ),
            calls_match(
                start,
                final(backend).calls(),
                final(log).writes@,
                final(log).deliveries@,
                *inputs,
                *trigger,
                final_sigs@,
            ),
    {
        let received: &ReceivedCandidate = match inputs.book.received(current) {
            Some(c) => c,
            None => {
                log.requests.push(*current);
                log.complete = false;
                return Err(WalkEnd::Incomplete);
            },
        };
        if inputs.desc.get_shard().is_masterchain() && !has_final_cert {
            if !received.is_empty {
                self.insert_finalized_delivery_sent(*current);
            }
            return Err(
                if log.complete {
                    WalkEnd::Complete
                } else {
                    WalkEnd::Incomplete
                },
            );
        }
        let floor: u32 = match self.last_mc_finalized_seqno {
            Some(n) => n,
            None => 0,
        };
        let below: bool = !has_final_cert && received.block_id.seq_no < floor;
        if received.candidate_hash_data_bytes.len() > 0 {
            match self.walk_present(
                current,
                received,
                has_final_cert,
                trigger,
                trigger_hash_data,
                final_sigs,
                inputs,
                backend,
                log,
                Ghost(start),
            ) {
                Some(end) => {
                    return Err(end);
                },
                None => {},
            }
        } else if !below {
            log.requests.push(*current);
            log.complete = false;
        }
        if below {
            if !received.is_empty {
                self.insert_finalized_delivery_sent(*current);
            }
            return Err(
                if log.complete {
                    WalkEnd::Complete
                } else {
                    WalkEnd::Incomplete
                },
            );
        }
        match received.parent_id {
            Some(parent) => Ok((parent, has_final_cert && received.is_empty)),
            None => Err(
                if log.complete {
                    WalkEnd::Complete
                } else {
                    WalkEnd::Incomplete
                },
            ),
        }
    }

    /// Follows the finalization of `trigger` up the parent chain: applies the
    /// finalization of each candidate and delivers its block.
    ///
    /// Records and blocks go to `backend`.
    pub fn try_finalize_recursive_chain<B: ConsensusBackend>(
        &mut self,
        trigger: &RawCandidateId,
        final_sigs: &Vec<VoteSignature>,
        inputs: &FinalizationInputs,
        backend: &mut B,
    ) -> (r: WalkReport)
        ensures
            walked(old(self)@, *trigger, final_sigs@, *inputs, r, final(self)@),
            calls_match(
                old(backend).calls(),
                final(backend).calls(),
                r.writes@,
                r.deliveries@,
                *inputs,
                *trigger,
                final_sigs@,
            ),
    {
        let trigger_hash_data: Vec<u8> = match inputs.book.received(trigger) {
            Some(c) => c.candidate_hash_data_bytes.clone(),
            None => Vec::new(),
        };
        assert(trigger_hash_data@ =~= inputs.hash_data_of(*trigger));
        let mut log = WalkLog {
            writes: Vec::new(),
            deliveries: Vec::new(),
            requests: Vec::new(),
            resets: Vec::new(),
            firsts: Vec::new(),
            last_finalized: None,
            complete: true,
        };
        let mut visited: KeySet<RawCandidateId> = AssocMap::new();
        let mut depth: u32 = 0;
        let mut current: RawCandidateId = *trigger;
        let mut has_final_cert: bool = true;
        let ghost start = walk_start(self@);
        let ghost calls = backend.calls();
        proof {
            assert(log.state(self@) =~= start);
            assert(visited@.dom() =~= Set::<RawCandidateId>::empty());
        }
        loop
            invariant
                depth <= MAX_CHAIN_DEPTH,
                trigger_hash_data@ == inputs.hash_data_of(*trigger),
                start == walk_start(old(self)@),
                calls == old(backend).calls(),
                calls_match(
                    calls,
                    backend.calls(),
                    log.writes@,
                    log.deliveries@,
                    *inputs,
                    *trigger,
                    final_sigs@,
                ),
                logs_once(write_log(log.writes@), visited@.dom()),
                logs_once(delivery_log(log.deliveries@), visited@.dom()),
                forall|p: spec_fn(RawCandidateId) -> bool, d: spec_fn(RawCandidateId) -> bool|
                    agrees(p, write_log(log.writes@)) && agrees(d, delivery_log(log.deliveries@))
                        ==> walk(
                        start,
                        *trigger,
                        true,
                        Set::empty(),
                        MAX_CHAIN_DEPTH as nat,
                        #[trigger] inputs.env(*trigger, final_sigs@, p, d),
                    ) == walk(
                        log.state(self@),
                        current,
                        has_final_cert,
                        visited@.dom(),
                        (MAX_CHAIN_DEPTH - depth) as nat,
                        inputs.env(*trigger, final_sigs@, p, d),
                    ),
            decreases MAX_CHAIN_DEPTH - depth,
        {
            let ghost seen = visited@.dom();
            let ghost writes0 = write_log(log.writes@);
            let ghost deliveries0 = delivery_log(log.deliveries@);
            if depth == MAX_CHAIN_DEPTH || visited.contains_key(&current) {
                proof {
                    lemma_worked_agrees(writes0, seen);
                    lemma_worked_agrees(deliveries0, seen);
                    let env = inputs.env(
                        *trigger,
                        final_sigs@,
                        worked(writes0),
                        worked(deliveries0),
                    );
                }
                let end: WalkEnd = if depth == MAX_CHAIN_DEPTH {
                    WalkEnd::TooDeep
                } else {
                    WalkEnd::Cycle
                };
                return finish_walk(log, end);
            }
            depth += 1;
            visited.insert(current, ());
            assert(visited@.dom() =~= seen.insert(current));
            let step: Result<(RawCandidateId, bool), WalkEnd> = self.walk_one(
                &current,
                has_final_cert,
                trigger,
                &trigger_hash_data,
                final_sigs,
                inputs,
                backend,
                &mut log,
                Ghost(calls),
            );
            proof {
                lemma_log_grows(writes0, write_log(log.writes@), seen, current);
                lemma_log_grows(deliveries0, delivery_log(log.deliveries@), seen, current);
            }
            match step {
                Err(end) => {
                    proof {
                        lemma_worked_agrees(write_log(log.writes@), visited@.dom());
                        lemma_worked_agrees(delivery_log(log.deliveries@), visited@.dom());
                        let env = inputs.env(
                            *trigger,
                            final_sigs@,
                            worked(write_log(log.writes@)),
                            worked(delivery_log(log.deliveries@)),
                        );
                    }
                    return finish_walk(log, end);
                },
                Ok((next, cert)) => {
                    current = next;
                    has_final_cert = cert;
                },
            }
        }
    }
}

fn finish_walk(log: WalkLog, end: WalkEnd) -> (r: WalkReport)
    ensures
        r.end == end,
        r.writes == log.writes,
        r.deliveries == log.deliveries,
        r.requests == log.requests,
        r.resets == log.resets,
        r.firsts == log.firsts,
        r.last_finalized == log.last_finalized,
{
    WalkReport {
        end,
        writes: log.writes,
        deliveries: log.deliveries,
        requests: log.requests,
        resets: log.resets,
        firsts: log.firsts,
        last_finalized: log.last_finalized,
    }
}

/// The walk from `trigger` in the state `s`, where the report says for which
/// candidates storing and delivering worked.
pub open spec fn walk_of(
    s: ConsensusView,
    trigger: RawCandidateId,
    final_sigs: Seq<VoteSignature>,
    inputs: FinalizationInputs,
    report: WalkReport,
) -> (WalkState, WalkEnd) {
    walk(
        walk_start(s),
        trigger,
        true,
        Set::empty(),
        MAX_CHAIN_DEPTH as nat,
        inputs.env(
            trigger,
            final_sigs,
            worked(write_log(report.writes@)),
            worked(delivery_log(report.deliveries@)),
        ),
    )
}

/// Whether the walk from `trigger` leads from `s` to `t` with this report. The
/// report says for which candidates storing and delivering worked; all else
/// follows.
pub open spec fn walked(
    s: ConsensusView,
    trigger: RawCandidateId,
    final_sigs: Seq<VoteSignature>,
    inputs: FinalizationInputs,
    report: WalkReport,
    t: ConsensusView,
) -> bool {
    let result = walk_of(s, trigger, final_sigs, inputs, report);
    &&& result.1 == report.end
    &&& result.0.s == t
    &&& result.0.writes == report.writes@
    &&& result.0.deliveries == report.deliveries@
    &&& result.0.requests == report.requests@
    &&& result.0.resets == report.resets@
    &&& result.0.firsts == report.firsts@
    &&& result.0.last_finalized == report.last_finalized
}

/// What every walk keeps, from the state `s` it starts in.
spec fn walk_keeps(s: ConsensusView, w: WalkState, env: WalkEnv) -> bool {
    &&& w.s.pending == s.pending
    &&& w.s.last_mc == s.last_mc
    &&& w.s.reports == s.reports
    &&& s.finalized.subset_of(w.s.finalized)
    &&& s.sent.subset_of(w.s.sent)
    &&& s.sent_seqno.submap_of(w.s.sent_seqno)
    &&& or_zero(w.s.last_consensus) >= or_zero(s.last_consensus)
    &&& or_zero(w.s.head_seqno) >= or_zero(s.head_seqno)
    &&& w.s.accepted_seqno >= s.accepted_seqno
    &&& forall|i: int|
        0 <= i < w.deliveries.len() ==> {
            let e = #[trigger] w.deliveries[i];
            let block = env.book.received[e.id].block_id;
            &&& !env.book.received[e.id].is_empty
            &&& w.s.finalized.contains(e.id)
            &&& emits(s, block, env.masterchain, e.is_final)
            &&& !s.sent.contains(e.id)
            &&& !s.sent_seqno.dom().contains(block.seq_no)
            &&& e.ok ==> w.s.sent.contains(e.id)
            &&& e.ok ==> w.s.sent_seqno.dom().contains(block.seq_no)
            &&& e.ok ==> w.s.sent_seqno[block.seq_no].block_id == block
        }
    &&& forall|i: int, j: int|
        0 <= i < j < w.deliveries.len() && w.deliveries[i].ok
            ==> env.book.received[w.deliveries[i].id].block_id.seq_no
            != env.book.received[w.deliveries[j].id].block_id.seq_no
    &&& w.complete ==> {
        &&& w.requests.len() == 0
        &&& forall|i: int| 0 <= i < w.writes.len() ==> (#[trigger] w.writes[i]).1
        &&& forall|i: int| 0 <= i < w.deliveries.len() ==> (#[trigger] w.deliveries[i]).ok
    }
}

proof fn lemma_emit_keeps(
    s: ConsensusView,
    w: WalkState,
    id: RawCandidateId,
    has_final_cert: bool,
    env: WalkEnv,
)
    requires
        walk_keeps(s, w, env),
        w.s.finalized.contains(id),
    ensures
        walk_keeps(
            s,
            walk_emitted(w, id, env.book.received[id], has_final_cert, env).0,
            env,
        ),
{
    let rec = env.book.received[id];
    let v = walk_emitted(w, id, rec, has_final_cert, env).0;
    if v.deliveries != w.deliveries {
        let n = w.deliveries.len() as int;
        let last = v.deliveries[n];
        assert(v.deliveries =~= w.deliveries.push(last));
        assert(s.sent_seqno.submap_of(v.s.sent_seqno));
        assert forall|i: int| 0 <= i < v.deliveries.len() implies {
            let e = #[trigger] v.deliveries[i];
            let block = env.book.received[e.id].block_id;
            &&& !env.book.received[e.id].is_empty
            &&& v.s.finalized.contains(e.id)
            &&& emits(s, block, env.masterchain, e.is_final)
            &&& !s.sent.contains(e.id)
            &&& !s.sent_seqno.dom().contains(block.seq_no)
            &&& e.ok ==> v.s.sent.contains(e.id)
            &&& e.ok ==> v.s.sent_seqno.dom().contains(block.seq_no)
            &&& e.ok ==> v.s.sent_seqno[block.seq_no].block_id == block
        } by {
            if i < n {
                assert(v.deliveries[i] == w.deliveries[i]);
            }
        }
        assert forall|i: int, j: int|
            0 <= i < j < v.deliveries.len() && v.deliveries[i].ok implies env.book.received[
            v.deliveries[i].id].block_id.seq_no
            != env.book.received[v.deliveries[j].id].block_id.seq_no by {
            assert(v.deliveries[i] == w.deliveries[i]);
            if j < n {
                assert(v.deliveries[j] == w.deliveries[j]);
            }
        }
    }
}

proof fn lemma_step_keeps(
    s: ConsensusView,
    w: WalkState,
    id: RawCandidateId,
    has_final_cert: bool,
    env: WalkEnv,
)
    requires
        walk_keeps(s, w, env),
    ensures
        walk_keeps(s, walk_step(w, id, has_final_cert, env).0, env),
        walk_step(w, id, has_final_cert, env).1 matches Err(end) ==> (end is Complete ==> walk_step(
            w,
            id,
            has_final_cert,
            env,
        ).0.complete) && !(end is TooDeep) && !(end is Cycle),
{
    if env.book.received.dom().contains(id) && !(env.masterchain && !has_final_cert) {
        let rec = env.book.received[id];
        if rec.candidate_hash_data_bytes.len() > 0 {
            let applied = walk_applied(w, id, rec, has_final_cert, env);
            assert(walk_keeps(s, applied.0, env));
            if applied.1 {
                assert(applied.0.s.finalized.contains(id));
                lemma_emit_keeps(s, applied.0, id, has_final_cert, env);
            }
        }
    }
}

proof fn lemma_walk_keeps(
    s: ConsensusView,
    w: WalkState,
    id: RawCandidateId,
    has_final_cert: bool,
    visited: Set<RawCandidateId>,
    fuel: nat,
    env: WalkEnv,
)
    requires
        walk_keeps(s, w, env),
    ensures
        ({
            let r = walk(w, id, has_final_cert, visited, fuel, env);
            &&& walk_keeps(s, r.0, env)
            &&& r.1 is Complete ==> r.0.complete
        }),
    decreases fuel,
{
    if fuel > 0 && !visited.contains(id) {
        lemma_step_keeps(s, w, id, has_final_cert, env);
        let step = walk_step(w, id, has_final_cert, env);
        match step.1 {
            Err(_) => {},
            Ok((next, cert)) => {
                lemma_walk_keeps(
                    s,
                    step.0,
                    next,
                    cert,
                    visited.insert(id),
                    (fuel - 1) as nat,
                    env,
                );
            },
        }
    }
}

/// A block is delivered at most once: a walk hands over no block whose
/// candidate or seqno was dealt with before, nor one with a seqno that it handed
/// over before with success, and what it handed over with success counts as
/// dealt with afterwards.
pub proof fn blocks_are_delivered_once(
    s: ConsensusView,
    trigger: RawCandidateId,
    final_sigs: Seq<VoteSignature>,
    inputs: FinalizationInputs,
    report: WalkReport,
    t: ConsensusView,
    before: BackendCalls,
    after: BackendCalls,
)
    requires
        walked(s, trigger, final_sigs, inputs, report, t),
        calls_match(
            before,
            after,
            report.writes@,
            report.deliveries@,
            inputs,
            trigger,
            final_sigs,
        ),
    ensures
        s.sent.subset_of(t.sent),
        s.sent_seqno.submap_of(t.sent_seqno),
        after.handed.len() == before.handed.len() + report.deliveries@.len(),
        forall|i: int| 0 <= i < before.handed.len() ==> #[trigger] after.handed[i]
            == before.handed[i],
        forall|i: int|
            before.handed.len() <= i < after.handed.len() ==> {
                let (cb, ok) = #[trigger] after.handed[i];
                let e = report.deliveries@[i - before.handed.len()];
                &&& ok == e.ok
                &&& cb.block_id == inputs.book@.received[e.id].block_id
                &&& !s.sent.contains(e.id)
                &&& !s.sent_seqno.dom().contains(cb.block_id.seq_no)
                &&& ok ==> t.sent.contains(e.id)
                &&& ok ==> t.sent_seqno.dom().contains(cb.block_id.seq_no)
                    && t.sent_seqno[cb.block_id.seq_no].block_id == cb.block_id
            },
        forall|i: int, j: int|
            before.handed.len() <= i < j < after.handed.len() && after.handed[i].1
                ==> after.handed[i].0.block_id.seq_no != after.handed[j].0.block_id.seq_no,
{
    let env = inputs.env(
        trigger,
        final_sigs,
        worked(write_log(report.writes@)),
        worked(delivery_log(report.deliveries@)),
    );
    lemma_walk_keeps(
        s,
        walk_start(s),
        trigger,
        true,
        Set::empty(),
        MAX_CHAIN_DEPTH as nat,
        env,
    );
    let n = before.handed.len() as int;
    assert forall|i: int| n <= i < after.handed.len() implies {
        let (cb, ok) = #[trigger] after.handed[i];
        let e = report.deliveries@[i - n];
        &&& ok == e.ok
        &&& cb.block_id == inputs.book@.received[e.id].block_id
    } by {
        let e = report.deliveries@[i - n];
        assert(is_handed(after.handed[n + (i - n)], e, inputs, trigger, final_sigs));
    }
    assert forall|i: int, j: int|
        n <= i < j < after.handed.len() && after.handed[i].1 implies after.handed[
    i].0.block_id.seq_no != after.handed[j].0.block_id.seq_no by {
        assert(report.deliveries@[i - n].ok);
    }
}

/// A block is delivered only after its finalization was applied, and only if
/// it is one to be delivered: on the masterchain under the finalization
/// certificate, elsewhere from the registered seqno on. Candidates without a
/// block of their own deliver nothing.
pub proof fn delivered_blocks_are_applied(
    s: ConsensusView,
    trigger: RawCandidateId,
    final_sigs: Seq<VoteSignature>,
    inputs: FinalizationInputs,
    report: WalkReport,
    t: ConsensusView,
    before: BackendCalls,
    after: BackendCalls,
)
    requires
        walked(s, trigger, final_sigs, inputs, report, t),
        calls_match(
            before,
            after,
            report.writes@,
            report.deliveries@,
            inputs,
            trigger,
            final_sigs,
        ),
    ensures
        after.handed.len() == before.handed.len() + report.deliveries@.len(),
        forall|i: int|
            before.handed.len() <= i < after.handed.len() ==> {
                let cb = (#[trigger] after.handed[i]).0;
                let e = report.deliveries@[i - before.handed.len()];
                let rec = inputs.book@.received[e.id];
                &&& cb.block_id == rec.block_id
                &&& t.finalized.contains(e.id)
                &&& !rec.is_empty
                &&& inputs.desc.shard_ident().masterchain() ==> cb.signatures.is_final
                &&& !inputs.desc.shard_ident().masterchain() ==> cb.block_id.seq_no >= or_zero(
                    s.last_mc,
                )
            },
{
    let env = inputs.env(
        trigger,
        final_sigs,
        worked(write_log(report.writes@)),
        worked(delivery_log(report.deliveries@)),
    );
    lemma_walk_keeps(
        s,
        walk_start(s),
        trigger,
        true,
        Set::empty(),
        MAX_CHAIN_DEPTH as nat,
        env,
    );
    let n = before.handed.len() as int;
    assert forall|i: int| n <= i < after.handed.len() implies {
        let cb = (#[trigger] after.handed[i]).0;
        let e = report.deliveries@[i - n];
        let rec = inputs.book@.received[e.id];
        &&& cb.block_id == rec.block_id
        &&& t.finalized.contains(e.id)
        &&& !rec.is_empty
        &&& inputs.desc.shard_ident().masterchain() ==> cb.signatures.is_final
        &&& !inputs.desc.shard_ident().masterchain() ==> cb.block_id.seq_no >= or_zero(s.last_mc)
    } by {
        let e = report.deliveries@[i - n];
        assert(is_handed(after.handed[n + (i - n)], e, inputs, trigger, final_sigs));
    }
}

/// Whether no block was handed over at a seqno after one was with success.
pub open spec fn handed_once(handed: Seq<(FinalizedCallback, bool)>) -> bool {
    forall|i: int, j: int|
        #![trigger handed[i], handed[j]]
        0 <= i < j < handed.len() && handed[i].1 ==> handed[i].0.block_id.seq_no
            != handed[j].0.block_id.seq_no
}

/// Whether all blocks that were handed over with success are known by seqno.
pub open spec fn handed_known(handed: Seq<(FinalizedCallback, bool)>, s: ConsensusView) -> bool {
    forall|i: int|
        0 <= i < handed.len() && (#[trigger] handed[i]).1 ==> s.sent_seqno.dom().contains(
            handed[i].0.block_id.seq_no,
        )
}

proof fn lemma_walk_hands_once(
    s: ConsensusView,
    trigger: RawCandidateId,
    final_sigs: Seq<VoteSignature>,
    inputs: FinalizationInputs,
    report: WalkReport,
    t: ConsensusView,
    before: Seq<(FinalizedCallback, bool)>,
    after: Seq<(FinalizedCallback, bool)>,
)
    requires
        walked(s, trigger, final_sigs, inputs, report, t),
        deliveries_made(before, after, report.deliveries@, inputs, trigger, final_sigs),
        handed_once(before),
        handed_known(before, s),
    ensures
        handed_once(after),
        handed_known(after, t),
{
    let none = Seq::<(FinalizedBlockRecord, bool)>::empty();
    blocks_are_delivered_once(
        s,
        trigger,
        final_sigs,
        inputs,
        report,
        t,
        BackendCalls { stored: none, handed: before },
        BackendCalls { stored: none + report.writes@, handed: after },
    );
    assert forall|i: int| 0 <= i < after.len() && (#[trigger] after[i]).1 implies
        t.sent_seqno.dom().contains(after[i].0.block_id.seq_no) by {
        if i < before.len() {
            assert(after[i] == before[i]);
            assert(s.sent_seqno.dom().contains(before[i].0.block_id.seq_no));
        }
    }
    assert forall|i: int, j: int|
        #![trigger after[i], after[j]]
        0 <= i < j < after.len() && after[i].1 implies after[i].0.block_id.seq_no
        != after[j].0.block_id.seq_no by {
        if j < before.len() {
            assert(after[i] == before[i] && after[j] == before[j]);
        } else if i < before.len() {
            assert(after[i] == before[i]);
            assert(s.sent_seqno.dom().contains(before[i].0.block_id.seq_no));
        }
    }
}

/// Finalization never moves a cursor back, and what was applied stays applied.
pub proof fn finalization_never_moves_back(
    s: ConsensusView,
    trigger: RawCandidateId,
    final_sigs: Seq<VoteSignature>,
    inputs: FinalizationInputs,
    report: WalkReport,
    t: ConsensusView,
)
    requires
        walked(s, trigger, final_sigs, inputs, report, t),
    ensures
        s.finalized.subset_of(t.finalized),
        or_zero(t.last_consensus) >= or_zero(s.last_consensus),
        or_zero(t.head_seqno) >= or_zero(s.head_seqno),
        t.accepted_seqno >= s.accepted_seqno,
        t.last_mc == s.last_mc,
        t.pending == s.pending,
        t.reports == s.reports,
{
    let env = inputs.env(
        trigger,
        final_sigs,
        worked(write_log(report.writes@)),
        worked(delivery_log(report.deliveries@)),
    );
    lemma_walk_keeps(
        s,
        walk_start(s),
        trigger,
        true,
        Set::empty(),
        MAX_CHAIN_DEPTH as nat,
        env,
    );
}

/// A walk that ends as complete asked for nothing, and all that it stored and
/// delivered worked.
pub proof fn complete_walks_miss_nothing(
    s: ConsensusView,
    trigger: RawCandidateId,
    final_sigs: Seq<VoteSignature>,
    inputs: FinalizationInputs,
    report: WalkReport,
    t: ConsensusView,
)
    requires
        walked(s, trigger, final_sigs, inputs, report, t),
        report.end is Complete,
    ensures
        report.requests@.len() == 0,
        forall|i: int| 0 <= i < report.writes@.len() ==> (#[trigger] report.writes@[i]).1,
        forall|i: int| 0 <= i < report.deliveries@.len() ==> (#[trigger] report.deliveries@[i]).ok,
{
    let env = inputs.env(
        trigger,
        final_sigs,
        worked(write_log(report.writes@)),
        worked(delivery_log(report.deliveries@)),
    );
    lemma_walk_keeps(
        s,
        walk_start(s),
        trigger,
        true,
        Set::empty(),
        MAX_CHAIN_DEPTH as nat,
        env,
    );
}

proof fn lemma_masterchain_walk(
    w: WalkState,
    id: RawCandidateId,
    has_final_cert: bool,
    visited: Set<RawCandidateId>,
    fuel: nat,
    env: WalkEnv,
)
    requires
        env.masterchain,
        w.deliveries.len() <= 1,
        has_final_cert ==> w.deliveries.len() == 0,
    ensures
        walk(w, id, has_final_cert, visited, fuel, env).0.deliveries.len() <= 1,
    decreases fuel,
{
    if fuel > 0 && !visited.contains(id) {
        let step = walk_step(w, id, has_final_cert, env);
        match step.1 {
            Err(_) => {},
            Ok((next, cert)) => {
                lemma_masterchain_walk(
                    step.0,
                    next,
                    cert,
                    visited.insert(id),
                    (fuel - 1) as nat,
                    env,
                );
            },
        }
    }
}

/// On the masterchain a finalization delivers at most one block.
pub proof fn masterchain_delivers_one_block(
    s: ConsensusView,
    trigger: RawCandidateId,
    final_sigs: Seq<VoteSignature>,
    inputs: FinalizationInputs,
    report: WalkReport,
    t: ConsensusView,
    before: BackendCalls,
    after: BackendCalls,
)
    requires
        walked(s, trigger, final_sigs, inputs, report, t),
        calls_match(
            before,
            after,
            report.writes@,
            report.deliveries@,
            inputs,
            trigger,
            final_sigs,
        ),
        inputs.desc.shard_ident().masterchain(),
    ensures
        after.handed.len() <= before.handed.len() + 1,
{
    let env = inputs.env(
        trigger,
        final_sigs,
        worked(write_log(report.writes@)),
        worked(delivery_log(report.deliveries@)),
    );
    lemma_masterchain_walk(
        walk_start(s),
        trigger,
        true,
        Set::empty(),
        MAX_CHAIN_DEPTH as nat,
        env,
    );
}

impl WalkEnd {
    /// Whether the finalization needs no further walk.
    pub open spec fn settled(self) -> bool {
        self is Complete || self is TooDeep || self is Cycle
    }
}

/// The signatures of a waiting finalization.
pub open spec fn final_sigs_of(s: ConsensusView, id: RawCandidateId) -> Seq<VoteSignature> {
    s.pending[id].certificate.signatures@
}

/// The state after the first `k` walks.
pub open spec fn after_walks(
    s: ConsensusView,
    reports: Seq<(RawCandidateId, WalkReport)>,
    inputs: FinalizationInputs,
    k: nat,
) -> ConsensusView
    decreases k,
{
    if k == 0 {
        s
    } else {
        let before = after_walks(s, reports, inputs, (k - 1) as nat);
        let (id, report) = reports[k - 1];
        walk_of(before, id, final_sigs_of(s, id), inputs, report).0.s
    }
}

/// The candidates whose walk settled.
pub open spec fn settled_ids(reports: Seq<(RawCandidateId, WalkReport)>) -> Set<RawCandidateId> {
    Set::new(
        |id: RawCandidateId|
            exists|i: int|
                0 <= i < reports.len() && (#[trigger] reports[i]).0 == id
                    && reports[i].1.end.settled(),
    )
}

/// Whether the walks of `ids` were made in turn with these reports.
pub open spec fn walks_follow(
    s: ConsensusView,
    ids: Seq<RawCandidateId>,
    inputs: FinalizationInputs,
    reports: Seq<(RawCandidateId, WalkReport)>,
) -> bool {
    &&& reports.len() <= ids.len()
    &&& forall|i: int|
        0 <= i < reports.len() ==> {
            &&& (#[trigger] reports[i]).0 == ids[i]
            &&& walked(
                after_walks(s, reports, inputs, i as nat),
                ids[i],
                final_sigs_of(s, ids[i]),
                inputs,
                reports[i].1,
                after_walks(s, reports, inputs, (i + 1) as nat),
            )
        }
}

/// The records that the walks were to store, in turn.
pub open spec fn all_writes(reports: Seq<(RawCandidateId, WalkReport)>) -> Seq<
    (FinalizedBlockRecord, bool),
>
    decreases reports.len(),
{
    if reports.len() == 0 {
        Seq::empty()
    } else {
        all_writes(reports.drop_last()) + reports.last().1.writes@
    }
}

/// The blocks that the walks handed over, in turn, each with the candidate that
/// its walk started from.
pub open spec fn all_deliveries(reports: Seq<(RawCandidateId, WalkReport)>) -> Seq<
    (RawCandidateId, Delivery),
>
    decreases reports.len(),
{
    if reports.len() == 0 {
        Seq::empty()
    } else {
        let (id, report) = reports.last();
        all_deliveries(reports.drop_last()) + report.deliveries@.map_values(
            |e: Delivery| (id, e),
        )
    }
}

/// Whether the calls that were made from `before` to `after` are those that the
/// reports of the walks tell of, and no others.
pub open spec fn calls_made(
    s: ConsensusView,
    inputs: FinalizationInputs,
    reports: Seq<(RawCandidateId, WalkReport)>,
    before: BackendCalls,
    after: BackendCalls,
) -> bool {
    let deliveries = all_deliveries(reports);
    &&& after.stored == before.stored + all_writes(reports)
    &&& after.handed.len() == before.handed.len() + deliveries.len()
    &&& forall|i: int| 0 <= i < before.handed.len() ==> #[trigger] after.handed[i]
        == before.handed[i]
    &&& forall|i: int|
        0 <= i < deliveries.len() ==> is_handed(
            after.handed[before.handed.len() + i],
            (#[trigger] deliveries[i]).1,
            inputs,
            deliveries[i].0,
            final_sigs_of(s, deliveries[i].0),
        )
}

proof fn lemma_calls_push(
    s: ConsensusView,
    inputs: FinalizationInputs,
    done: Seq<(RawCandidateId, WalkReport)>,
    e: (RawCandidateId, WalkReport),
    before: BackendCalls,
    between: BackendCalls,
    after: BackendCalls,
)
    requires
        calls_made(s, inputs, done, before, between),
        calls_match(
            between,
            after,
            e.1.writes@,
            e.1.deliveries@,
            inputs,
            e.0,
            final_sigs_of(s, e.0),
        ),
    ensures
        calls_made(s, inputs, done.push(e), before, after),
{
    let all = done.push(e);
    assert(all.drop_last() =~= done);
    assert(after.stored =~= before.stored + all_writes(all));
    let first = all_deliveries(done);
    let more = e.1.deliveries@;
    let deliveries = all_deliveries(all);
    assert(deliveries =~= first + more.map_values(|d: Delivery| (e.0, d)));
    assert forall|i: int| 0 <= i < before.handed.len() implies #[trigger] after.handed[i]
        == before.handed[i] by {
        assert(after.handed[i] == between.handed[i]);
    }
    assert forall|i: int| 0 <= i < deliveries.len() implies is_handed(
        after.handed[before.handed.len() + i],
        (#[trigger] deliveries[i]).1,
        inputs,
        deliveries[i].0,
        final_sigs_of(s, deliveries[i].0),
    ) by {
        let k = before.handed.len() + i;
        if i < first.len() {
            assert(deliveries[i] == first[i]);
            assert(after.handed[k] == between.handed[k]);
        } else {
            let j = i - first.len();
            assert(deliveries[i] == (e.0, more[j]));
            assert(k == between.handed.len() + j);
        }
    }
}

/// Whether the waiting finalizations among `ids` were followed in turn, each
/// with its report, up to one that broke off. Unless one broke off, those that
/// settled wait no more.
pub open spec fn retried(
    s: ConsensusView,
    ids: Seq<RawCandidateId>,
    inputs: FinalizationInputs,
    reports: Seq<(RawCandidateId, WalkReport)>,
    t: ConsensusView,
) -> bool {
    let due = ids.filter(|id: RawCandidateId| s.pending.dom().contains(id));
    let broke = reports.len() > 0 && reports.last().1.end is Breach;
    &&& walks_follow(s, due, inputs, reports)
    &&& forall|i: int| 0 <= i < reports.len() - 1 ==> !((#[trigger] reports[i]).1.end is Breach)
    &&& broke || reports.len() == due.len()
    &&& t == (ConsensusView {
        pending: if broke {
            s.pending
        } else {
            kept(s.pending, |id: RawCandidateId| !settled_ids(reports).contains(id))
        },
        ..after_walks(s, reports, inputs, reports.len())
    })
}

fn copy_signatures(sigs: &Vec<VoteSignature>) -> (r: Vec<VoteSignature>)
    ensures
        same_views(r@, sigs@),
{
    let mut out: Vec<VoteSignature> = Vec::new();
    let mut i: usize = 0;
    while i < sigs.len()
        invariant
            i <= sigs@.len(),
            out@.len() == i,
            forall|j: int| 0 <= j < i ==> (#[trigger] out@[j])@ == sigs@[j]@,
        decreases sigs@.len() - i,
    {
        out.push(VoteSignature::new(sigs[i].validator_idx, sigs[i].signature.clone()));
        i += 1;
    }
    out
}

proof fn lemma_same_views(a: Seq<VoteSignature>, b: Seq<VoteSignature>, desc: SessionDescription)
    requires
        same_views(a, b),
    ensures
        deliverable(a, desc) == deliverable(b, desc),
{
    assert forall|i: int| 0 <= i < a.len() implies #[trigger] voters(a)[i] == voters(b)[i] by {
        assert(a[i]@ == b[i]@);
    }
    assert(voters(a) =~= voters(b));
    assert forall|i: int| 0 <= i < a.len() implies (#[trigger] a[i]).validator_idx
        == b[i].validator_idx && a[i].signature@ == b[i].signature@ by {
        assert(a[i]@ == b[i]@);
    }
    if deliverable(a, desc) {
        assert forall|i: int| 0 <= i < b.len() implies {
            &&& (#[trigger] b[i]).validator_idx.0 < desc.weights().len()
            &&& b[i].signature@.len() >= SIGNATURE_LEN
        } by {
            assert(a[i].validator_idx == b[i].validator_idx);
        }
    }
}

proof fn lemma_same_deliveries(
    before: Seq<(FinalizedCallback, bool)>,
    after: Seq<(FinalizedCallback, bool)>,
    deliveries: Seq<Delivery>,
    inputs: FinalizationInputs,
    trigger: RawCandidateId,
    a: Seq<VoteSignature>,
    b: Seq<VoteSignature>,
)
    requires
        same_views(a, b),
        deliveries_made(before, after, deliveries, inputs, trigger, a),
    ensures
        deliveries_made(before, after, deliveries, inputs, trigger, b),
{
    assert forall|i: int| 0 <= i < a.len() implies #[trigger] voters(a)[i] == voters(b)[i] by {
        assert(a[i]@ == b[i]@);
    }
    assert(voters(a) =~= voters(b));
    assert forall|i: int| 0 <= i < deliveries.len() implies is_handed(
        after[before.len() + i],
        #[trigger] deliveries[i],
        inputs,
        trigger,
        b,
    ) by {
        let e = deliveries[i];
        let h = after[before.len() + i];
        assert(is_handed(h, e, inputs, trigger, a));
        assert forall|j: int| 0 <= j < b.len() && e.is_final implies {
            &&& (#[trigger] h.0.signatures.pairs@[j]).validator_idx == b[j].validator_idx
            &&& h.0.signatures.pairs@[j].r@ == b[j].signature@.subrange(0, 32)
            &&& h.0.signatures.pairs@[j].s@ == b[j].signature@.subrange(32, 64)
        } by {
            assert(a[j]@ == b[j]@);
        }
    }
}

proof fn lemma_after_walks_prefix(
    s: ConsensusView,
    a: Seq<(RawCandidateId, WalkReport)>,
    b: Seq<(RawCandidateId, WalkReport)>,
    inputs: FinalizationInputs,
    k: nat,
)
    requires
        k <= a.len(),
        k <= b.len(),
        forall|i: int| 0 <= i < k ==> a[i] == b[i],
    ensures
        after_walks(s, a, inputs, k) == after_walks(s, b, inputs, k),
    decreases k,
{
    if k > 0 {
        lemma_after_walks_prefix(s, a, b, inputs, (k - 1) as nat);
    }
}

proof fn lemma_walks_push(
    s: ConsensusView,
    ids: Seq<RawCandidateId>,
    inputs: FinalizationInputs,
    done: Seq<(RawCandidateId, WalkReport)>,
    e: (RawCandidateId, WalkReport),
    t: ConsensusView,
)
    requires
        walks_follow(s, ids, inputs, done),
        done.len() == ids.len(),
        walked(
            after_walks(s, done, inputs, done.len()),
            e.0,
            final_sigs_of(s, e.0),
            inputs,
            e.1,
            t,
        ),
    ensures
        walks_follow(s, ids.push(e.0), inputs, done.push(e)),
        after_walks(s, done.push(e), inputs, done.len() + 1) == t,
{
    let all = done.push(e);
    lemma_after_walks_prefix(s, all, done, inputs, done.len());
    assert forall|i: int| 0 <= i < all.len() implies {
        &&& (#[trigger] all[i]).0 == ids.push(e.0)[i]
        &&& walked(
            after_walks(s, all, inputs, i as nat),
            ids.push(e.0)[i],
            final_sigs_of(s, ids.push(e.0)[i]),
            inputs,
            all[i].1,
            after_walks(s, all, inputs, (i + 1) as nat),
        )
    } by {
        if i < done.len() {
            assert(all[i] == done[i]);
            lemma_after_walks_prefix(s, all, done, inputs, i as nat);
            lemma_after_walks_prefix(s, all, done, inputs, (i + 1) as nat);
        }
    }
}

impl ConsensusController {
    /// Follows a finalization if it waits.
    fn walk_pending<B: ConsensusBackend>(
        &mut self,
        id: &RawCandidateId,
        inputs: &FinalizationInputs,
        backend: &mut B,
    ) -> (r: Option<WalkReport>)
        ensures
            r is Some <==> old(self)@.pending.dom().contains(*id),
            match r {
                Some(report) => {
                    &&& walked(
                        old(self)@,
                        *id,
                        final_sigs_of(old(self)@, *id),
                        *inputs,
                        report,
                        final(self)@,
                    )
                    &&& final(self)@.pending == old(self)@.pending
                    &&& calls_match(
                        old(backend).calls(),
                        final(backend).calls(),
                        report.writes@,
                        report.deliveries@,
                        *inputs,
                        *id,
                        final_sigs_of(old(self)@, *id),
                    )
                },
                None => final(self)@ == old(self)@ && final(backend).calls() == old(
                    backend,
                ).calls(),
            },
    {
        let ghost s = self@;
        let ghost calls = backend.calls();
        let entry_sigs: Option<Vec<VoteSignature>> = match self.finalized_pending_body.get(id) {
            Some(entry) => Some(copy_signatures(&entry.certificate.signatures)),
            None => None,
        };
        match entry_sigs {
            Some(sigs) => {
                let ghost own = s.pending[*id].certificate.signatures@;
                proof {
                    lemma_same_views(sigs@, own, *inputs.desc);
                }
                let report: WalkReport = self.try_finalize_recursive_chain(
                    id,
                    &sigs,
                    inputs,
                    backend,
                );
                proof {
                    finalization_never_moves_back(s, *id, sigs@, *inputs, report, self@);
                    assert(walked(s, *id, own, *inputs, report, self@)) by {
                        let p = worked(write_log(report.writes@));
                        let d = worked(delivery_log(report.deliveries@));
                        assert(inputs.env(*id, sigs@, p, d).notar_usable =~= inputs.env(
                            *id,
                            own,
                            p,
                            d,
                        ).notar_usable);
                    }
                    lemma_same_deliveries(
                        calls.handed,
                        backend.calls().handed,
                        report.deliveries@,
                        *inputs,
                        *id,
                        sigs@,
                        own,
                    );
                }
                Some(report)
            },
            None => None,
        }
    }

    /// Removes the finalizations that settled from those that wait.
    fn drop_settled(&mut self, reports: &Vec<(RawCandidateId, WalkReport)>)
        ensures
            final(self)@ == (ConsensusView {
                pending: kept(
                    old(self)@.pending,
                    |id: RawCandidateId| !settled_ids(reports@).contains(id),
                ),
                ..old(self)@
            }),
    {
        let ghost s = self@;
        let mut i: usize = 0;
        assert(self@.pending =~= kept(
            s.pending,
            |id: RawCandidateId| !settled_ids(reports@.take(0)).contains(id),
        ));
        while i < reports.len()
            invariant
                i <= reports@.len(),
                self@ == (ConsensusView { pending: self@.pending, ..s }),
                self@.pending == kept(
                    s.pending,
                    |id: RawCandidateId| !settled_ids(reports@.take(i as int)).contains(id),
                ),
            decreases reports@.len() - i,
        {
            let settled: bool = matches!(
                reports[i].1.end,
                WalkEnd::Complete | WalkEnd::TooDeep | WalkEnd::Cycle
            );
            if settled {
                self.finalized_pending_body.remove(&reports[i].0);
            }
            proof {
                lemma_settled_next(reports@, i as int);
                assert(self@.pending =~= kept(
                    s.pending,
                    |id: RawCandidateId|
                        !settled_ids(reports@.take(i as int + 1)).contains(id),
                ));
            }
            i += 1;
        }
        assert(reports@.take(i as int) =~= reports@);
    }

    /// Follows a finalization if it waits, behind those that were followed
    /// already. Says whether it broke off.
    fn retry_one<B: ConsensusBackend>(
        &mut self,
        id: &RawCandidateId,
        inputs: &FinalizationInputs,
        backend: &mut B,
        reports: &mut Vec<(RawCandidateId, WalkReport)>,
        Ghost(s): Ghost<ConsensusView>,
        Ghost(seen): Ghost<Seq<RawCandidateId>>,
        Ghost(start): Ghost<BackendCalls>,
    ) -> (stop: bool)
        requires
            old(self)@.pending == s.pending,
            old(self)@ == after_walks(s, old(reports)@, *inputs, old(reports)@.len()),
            old(reports)@.len() == seen.len(),
            walks_follow(s, seen, *inputs, old(reports)@),
            calls_made(s, *inputs, old(reports)@, start, old(backend).calls()),
        ensures
            final(self)@.pending == s.pending,
            final(self)@ == after_walks(s, final(reports)@, *inputs, final(reports)@.len()),
            s.pending.dom().contains(*id) ==> {
                &&& walks_follow(s, seen.push(*id), *inputs, final(reports)@)
                &&& final(reports)@.len() == old(reports)@.len() + 1
                &&& final(reports)@.drop_last() == old(reports)@
                &&& stop == final(reports)@.last().1.end is Breach
            },
            calls_made(s, *inputs, final(reports)@, start, final(backend).calls()),
            !s.pending.dom().contains(*id) ==> final(reports)@ == old(reports)@ && !stop,
    {
        let ghost done = reports@;
        let ghost between = backend.calls();
        match self.walk_pending(id, inputs, backend) {
            Some(report) => {
                let stop: bool = matches!(report.end, WalkEnd::Breach(_));
                let entry: (RawCandidateId, WalkReport) = (*id, report);
                proof {
                    lemma_walks_push(s, seen, *inputs, done, entry, self@);
                    lemma_calls_push(s, *inputs, done, entry, start, between, backend.calls());
                }
                reports.push(entry);
                assert(reports@.drop_last() =~= done);
                stop
            },
            None => false,
        }
    }

    /// Follows the waiting finalizations among `ids` in turn.
    #[verifier::rlimit(30)]
    pub fn retry_pending_recursive_finalization_for<B: ConsensusBackend>(
        &mut self,
        ids: &Vec<RawCandidateId>,
        inputs: &FinalizationInputs,
        backend: &mut B,
    ) -> (r: Vec<(RawCandidateId, WalkReport)>)
        ensures
            retried(old(self)@, ids@, *inputs, r@, final(self)@),
            calls_made(
                old(self)@,
                *inputs,
                r@,
                old(backend).calls(),
                final(backend).calls(),
            ),
    {
        let ghost s = self@;
        let ghost calls = backend.calls();
        let ghost due_fn = |id: RawCandidateId| s.pending.dom().contains(id);
        let mut reports: Vec<(RawCandidateId, WalkReport)> = Vec::new();
        let mut k: usize = 0;
        assert(ids@.take(0).filter(due_fn) =~= Seq::<RawCandidateId>::empty()) by {
            reveal(Seq::filter);
        }
        while k < ids.len()
            invariant
                k <= ids@.len(),
                s == old(self)@,
                due_fn == (|id: RawCandidateId| s.pending.dom().contains(id)),
                self@.pending == s.pending,
                self@ == after_walks(s, reports@, *inputs, reports@.len()),
                reports@.len() == ids@.take(k as int).filter(due_fn).len(),
                walks_follow(s, ids@.take(k as int).filter(due_fn), *inputs, reports@),
                forall|i: int| 0 <= i < reports@.len() ==> !((#[trigger] reports@[i]).1.end is Breach),
                calls == old(backend).calls(),
                calls_made(s, *inputs, reports@, calls, backend.calls()),
            decreases ids@.len() - k,
        {
            let id: RawCandidateId = ids[k];
            let ghost done = reports@;
            let ghost seen = ids@.take(k as int).filter(due_fn);
            assert(ids@.take(k as int + 1).filter(due_fn) == if due_fn(id) {
                seen.push(id)
            } else {
                seen
            }) by {
                assert(ids@.take(k as int + 1).drop_last() =~= ids@.take(k as int));
                reveal(Seq::filter);
            }
            let stop: bool = self.retry_one(
                &id,
                inputs,
                backend,
                &mut reports,
                Ghost(s),
                Ghost(seen),
                Ghost(calls),
            );
            assert forall|i: int| 0 <= i < done.len() implies !((#[trigger] reports@[i]).1.end
                is Breach) by {
                assert(reports@[i] == done[i]);
            }
            if stop {
                proof {
                    lemma_filter_prefix(ids@, due_fn, k as int + 1);
                    lemma_walks_more(s, seen.push(id), ids@.filter(due_fn), *inputs, reports@);
                }
                return reports;
            }
            k += 1;
        }
        assert(ids@.take(k as int) =~= ids@);
        self.drop_settled(&reports);
        reports
    }
}

proof fn lemma_walks_more(
    s: ConsensusView,
    a: Seq<RawCandidateId>,
    b: Seq<RawCandidateId>,
    inputs: FinalizationInputs,
    reports: Seq<(RawCandidateId, WalkReport)>,
)
    requires
        walks_follow(s, a, inputs, reports),
        a.len() <= b.len(),
        forall|i: int| 0 <= i < a.len() ==> a[i] == b[i],
    ensures
        walks_follow(s, b, inputs, reports),
{
    assert forall|i: int| 0 <= i < reports.len() implies {
        &&& (#[trigger] reports[i]).0 == b[i]
        &&& walked(
            after_walks(s, reports, inputs, i as nat),
            b[i],
            final_sigs_of(s, b[i]),
            inputs,
            reports[i].1,
            after_walks(s, reports, inputs, (i + 1) as nat),
        )
    } by {
        assert(a[i] == b[i]);
    }
}

proof fn lemma_settled_next(reports: Seq<(RawCandidateId, WalkReport)>, k: int)
    requires
        0 <= k < reports.len(),
    ensures
        forall|id: RawCandidateId| #[trigger]
            settled_ids(reports.take(k + 1)).contains(id) <==> (settled_ids(
                reports.take(k),
            ).contains(id) || (reports[k].1.end.settled() && id == reports[k].0)),
{
    let now = reports.take(k + 1);
    let before = reports.take(k);
    assert forall|id: RawCandidateId| #[trigger] settled_ids(now).contains(id) <==> (settled_ids(
        before,
    ).contains(id) || (reports[k].1.end.settled() && id == reports[k].0)) by {
        if settled_ids(before).contains(id) {
            let j = choose|j: int|
                0 <= j < before.len() && (#[trigger] before[j]).0 == id
                    && before[j].1.end.settled();
            assert(now[j] == before[j]);
        }
        if reports[k].1.end.settled() && id == reports[k].0 {
            assert(now[k].0 == id);
        }
        if settled_ids(now).contains(id) {
            let j = choose|j: int|
                0 <= j < now.len() && (#[trigger] now[j]).0 == id && now[j].1.end.settled();
            if j < k {
                assert(before[j] == now[j]);
            }
        }
    }
}

proof fn lemma_filter_prefix<A>(s: Seq<A>, f: spec_fn(A) -> bool, k: int)
    requires
        0 <= k <= s.len(),
    ensures
        s.take(k).filter(f).len() <= s.filter(f).len(),
        forall|i: int|
            0 <= i < s.take(k).filter(f).len() ==> s.take(k).filter(f)[i] == s.filter(f)[i],
    decreases s.len(),
{
    reveal(Seq::filter);
    if k == s.len() {
        assert(s.take(k) =~= s);
    } else {
        assert(s.drop_last().take(k) =~= s.take(k));
        lemma_filter_prefix(s.drop_last(), f, k);
    }
}

proof fn lemma_walks_without_last(
    s: ConsensusView,
    ids: Seq<RawCandidateId>,
    inputs: FinalizationInputs,
    reports: Seq<(RawCandidateId, WalkReport)>,
)
    requires
        walks_follow(s, ids, inputs, reports),
        reports.len() > 0,
    ensures
        walks_follow(s, ids, inputs, reports.drop_last()),
        after_walks(s, reports.drop_last(), inputs, (reports.len() - 1) as nat) == after_walks(
            s,
            reports,
            inputs,
            (reports.len() - 1) as nat,
        ),
{
    let done = reports.drop_last();
    lemma_after_walks_prefix(s, done, reports, inputs, done.len());
    assert forall|i: int| 0 <= i < done.len() implies {
        &&& (#[trigger] done[i]).0 == ids[i]
        &&& walked(
            after_walks(s, done, inputs, i as nat),
            ids[i],
            final_sigs_of(s, ids[i]),
            inputs,
            done[i].1,
            after_walks(s, done, inputs, (i + 1) as nat),
        )
    } by {
        assert(done[i] == reports[i]);
        lemma_after_walks_prefix(s, done, reports, inputs, i as nat);
        lemma_after_walks_prefix(s, done, reports, inputs, (i + 1) as nat);
    }
}

/// The calls before the last walk.
proof fn lemma_calls_without_last(
    s: ConsensusView,
    inputs: FinalizationInputs,
    reports: Seq<(RawCandidateId, WalkReport)>,
    before: BackendCalls,
    after: BackendCalls,
) -> (between: BackendCalls)
    requires
        calls_made(s, inputs, reports, before, after),
        reports.len() > 0,
    ensures
        calls_made(s, inputs, reports.drop_last(), before, between),
        deliveries_made(
            between.handed,
            after.handed,
            reports.last().1.deliveries@,
            inputs,
            reports.last().0,
            final_sigs_of(s, reports.last().0),
        ),
{
    let n = before.handed.len() as int;
    let done = reports.drop_last();
    let (id, report) = reports.last();
    let first = all_deliveries(done);
    let all = all_deliveries(reports);
    assert(all =~= first + report.deliveries@.map_values(|e: Delivery| (id, e)));
    let between = BackendCalls {
        stored: before.stored + all_writes(done),
        handed: after.handed.take(n + first.len()),
    };
    assert forall|i: int| 0 <= i < first.len() implies is_handed(
        between.handed[n + i],
        (#[trigger] first[i]).1,
        inputs,
        first[i].0,
        final_sigs_of(s, first[i].0),
    ) by {
        assert(all[i] == first[i]);
    }
    assert forall|i: int| 0 <= i < report.deliveries@.len() implies is_handed(
        after.handed[between.handed.len() + i],
        #[trigger] report.deliveries@[i],
        inputs,
        id,
        final_sigs_of(s, id),
    ) by {
        assert(all[first.len() + i] == (id, report.deliveries@[i]));
        assert(n + (first.len() + i) == between.handed.len() + i);
    }
    between
}

proof fn lemma_walks_hand_once(
    s: ConsensusView,
    ids: Seq<RawCandidateId>,
    inputs: FinalizationInputs,
    reports: Seq<(RawCandidateId, WalkReport)>,
    before: BackendCalls,
    after: BackendCalls,
)
    requires
        walks_follow(s, ids, inputs, reports),
        calls_made(s, inputs, reports, before, after),
        handed_once(before.handed),
        handed_known(before.handed, s),
    ensures
        handed_once(after.handed),
        handed_known(after.handed, after_walks(s, reports, inputs, reports.len())),
    decreases reports.len(),
{
    if reports.len() == 0 {
        assert(after.handed =~= before.handed);
    } else {
        let done = reports.drop_last();
        let (id, report) = reports.last();
        let k = (reports.len() - 1) as nat;
        lemma_walks_without_last(s, ids, inputs, reports);
        let between = lemma_calls_without_last(s, inputs, reports, before, after);
        lemma_walks_hand_once(s, ids, inputs, done, before, between);
        assert(reports[k as int].0 == ids[k as int]);
        lemma_walk_hands_once(
            after_walks(s, reports, inputs, k),
            id,
            final_sigs_of(s, id),
            inputs,
            report,
            after_walks(s, reports, inputs, reports.len()),
            between.handed,
            after.handed,
        );
    }
}

/// However often finalizations are followed, at most one block is handed over
/// with success at each seqno, and none after that: if that held of all calls
/// before, and the state knew of them, so it is afterwards.
pub proof fn seqnos_are_delivered_once(
    s: ConsensusView,
    ids: Seq<RawCandidateId>,
    inputs: FinalizationInputs,
    reports: Seq<(RawCandidateId, WalkReport)>,
    t: ConsensusView,
    before: BackendCalls,
    after: BackendCalls,
)
    requires
        retried(s, ids, inputs, reports, t),
        calls_made(s, inputs, reports, before, after),
        handed_once(before.handed),
        handed_known(before.handed, s),
    ensures
        handed_once(after.handed),
        handed_known(after.handed, t),
{
    let due = ids.filter(|id: RawCandidateId| s.pending.dom().contains(id));
    lemma_walks_hand_once(s, due, inputs, reports, before, after);
}

/// Whether `ids` lists the waiting finalizations by slot and hash, each once.
pub open spec fn lists_pending(
    ids: Seq<RawCandidateId>,
    pending: Map<RawCandidateId, FinalizedEntry>,
) -> bool {
    &&& is_sorted(ids)
    &&& ids.no_duplicates()
    &&& ids.to_set() == pending.dom()
}

/// What the finalization of a candidate led to.
#[derive(Debug)]
pub struct FinalizationReport {
    /// Whether the signers of the certificate weigh less than they have to.
    pub underweight: bool,
    /// The walks that were made, with the candidates that they started from.
    pub walks: Vec<(RawCandidateId, WalkReport)>,
}

/// A candidate that became notarized with its block at hand.
#[derive(Debug)]
pub struct ObservedCandidate {
    pub block_id: BlockIdExt,
    pub data: Vec<u8>,
    pub collated_data: Vec<u8>,
    /// Whether the candidate is our own.
    pub local_collated: bool,
}

/// What follows from a notarization. The certificate itself is stored and
/// relayed in any case.
#[derive(Debug)]
pub struct NotarizationReport {
    /// Whether the candidate is to be requested.
    pub request: bool,
    /// The candidate, if there is a block to observe.
    pub observed: Option<ObservedCandidate>,
}

/// What follows from the notarization of `id`.
pub open spec fn is_notarization_report(
    r: NotarizationReport,
    id: RawCandidateId,
    book: BookView,
    local: ValidatorIndex,
) -> bool {
    &&& r.request == !book.has_real_body(id)
    &&& r.observed is Some <==> book.received.dom().contains(id) && !book.received[id].is_empty
    &&& r.observed matches Some(o) ==> {
        &&& o.block_id == book.received[id].block_id
        &&& o.data@ == book.received[id].data
        &&& o.collated_data@ == book.received[id].collated_data
        &&& o.local_collated == (book.received[id].source_idx == local)
    }
}

/// A vote of ours on its way out.
#[derive(Debug)]
pub struct OutgoingVote {
    /// Slot of which this is our first vote to notarize.
    pub first_notarized: Option<SlotIndex>,
    /// How long after the start of its slot that first vote comes.
    pub latency: Option<TimeSpan>,
    /// The signature; without it the vote is neither stored nor sent.
    pub signature: Option<Vec<u8>>,
}

/// Slot of which `vote` is our first one to notarize, if it is, and how long after the
/// start of the slot it comes.
pub open spec fn first_notarization(
    vote: Vote,
    notarized: bool,
    started_at: TimePoint,
    now: TimePoint,
) -> (Option<SlotIndex>, Option<TimeSpan>) {
    match vote {
        Vote::Notarize(v) if !notarized => (Some(v.slot), now.since(started_at)),
        _ => (None, None),
    }
}

impl ConsensusController {
    /// Follows all waiting finalizations, by slot and hash.
    pub fn retry_pending_recursive_finalization<B: ConsensusBackend>(
        &mut self,
        inputs: &FinalizationInputs,
        backend: &mut B,
    ) -> (r: Vec<
        (RawCandidateId, WalkReport),
    >)
        ensures
            exists|ids: Seq<RawCandidateId>| #[trigger]
                lists_pending(ids, old(self)@.pending) && retried(
                    old(self)@,
                    ids,
                    *inputs,
                    r@,
                    final(self)@,
                ),
            calls_made(
                old(self)@,
                *inputs,
                r@,
                old(backend).calls(),
                final(backend).calls(),
            ),
    {
        let mut ids: Vec<RawCandidateId> = self.finalized_pending_body.keys();
        let ghost listed = ids@;
        sort_by_rank(&mut ids);
        proof {
            sorting_is_stable(listed);
            reordering_keeps_members(listed, ids@);
            assert(lists_pending(ids@, self@.pending));
        }
        self.retry_pending_recursive_finalization_for(&ids, inputs, backend)
    }

    /// Takes in the finalization of a candidate: it waits until all its blocks
    /// are there, and is followed at once as far as they are.
    pub fn handle_block_finalized<B: ConsensusBackend>(
        &mut self,
        id: RawCandidateId,
        certificate: FinalCert,
        now: TimePoint,
        inputs: &FinalizationInputs,
        backend: &mut B,
    ) -> (r: FinalizationReport)
        requires
            forall|k: int|
                0 <= k < certificate.signatures@.len() ==> (
                #[trigger] certificate.signatures@[k]).validator_idx.0
                    < inputs.desc.weights().len(),
        ensures
            r.underweight == (weight_of(inputs.desc.weights(), certificate.voters())
                < inputs.desc.threshold()),
            ({
                let s = ConsensusView {
                    pending: old(self)@.pending.insert(
                        id,
                        FinalizedEntry { certificate, finalized_at: now },
                    ),
                    ..old(self)@
                };
                &&& retried(s, seq![id], *inputs, r.walks@, final(self)@)
                &&& r.walks@.len() == 1
                &&& calls_made(
                    s,
                    *inputs,
                    r.walks@,
                    old(backend).calls(),
                    final(backend).calls(),
                )
            }),
    {
        let underweight: bool = certificate.is_underweight(inputs.desc);
        let entry = FinalizedEntry { certificate, finalized_at: now };
        self.finalized_pending_body.insert(id, entry);
        let mut ids: Vec<RawCandidateId> = Vec::new();
        ids.push(id);
        let ghost s = self@;
        assert(ids@ =~= seq![id]);
        assert(s.pending =~= old(self)@.pending.insert(id, entry));
        let walks = self.retry_pending_recursive_finalization_for(&ids, inputs, backend);
        assert(seq![id].filter(|id: RawCandidateId| s.pending.dom().contains(id)) =~= seq![id]) by {
            let f = |id: RawCandidateId| s.pending.dom().contains(id);
            assert(seq![id].drop_last() =~= Seq::<RawCandidateId>::empty());
            reveal_with_fuel(Seq::filter, 2);
        }
        FinalizationReport { underweight, walks }
    }

    /// Says what follows from the notarization of the candidate `id`.
    pub fn handle_notarization_reached(
        id: &RawCandidateId,
        book: &CandidateBook,
        desc: &SessionDescription,
    ) -> (r: NotarizationReport)
        ensures
            is_notarization_report(r, *id, book@, desc.local()),
    {
        let request: bool = !book.has_real_body(id);
        let observed: Option<ObservedCandidate> = match book.received(id) {
            Some(c) => if c.is_empty {
                None
            } else {
                Some(
                    ObservedCandidate {
                        block_id: c.block_id,
                        data: c.data.clone(),
                        collated_data: c.collated_data.clone(),
                        local_collated: c.source_idx == desc.get_self_idx(),
                    },
                )
            },
            None => None,
        };
        NotarizationReport { request, observed }
    }

    /// Signs a vote of ours whose prerequisites are stored.
    ///
    /// `notarized` says whether we voted before to notarize a candidate of the
    /// vote's slot, which started at `started_at`.
    pub fn broadcast_vote_after_persist<S: FnOnce(&Vote) -> Option<Vec<u8>>>(
        vote: &Vote,
        notarized: bool,
        started_at: TimePoint,
        now: TimePoint,
        sign: S,
    ) -> (r: OutgoingVote)
        requires
            call_requires(sign, (vote,)),
        ensures
            (r.first_notarized, r.latency) == first_notarization(
                *vote,
                notarized,
                started_at,
                now,
            ),
            r.first_notarized == (match *vote {
                Vote::Notarize(v) if !notarized => Some(v.slot),
                _ => None,
            }),
            r.latency == (if r.first_notarized is Some {
                now.since(started_at)
            } else {
                None
            }),
            call_ensures(sign, (vote,), r.signature),
    {
        let mut first_notarized: Option<SlotIndex> = None;
        let mut latency: Option<TimeSpan> = None;
        match vote {
            Vote::Notarize(v) => if !notarized {
                first_notarized = Some(v.slot);
                latency = now.duration_since(started_at);
            },
            _ => {},
        }
        let signature: Option<Vec<u8>> = sign(vote);
        OutgoingVote { first_notarized, latency, signature }
    }
}

} // verus!
