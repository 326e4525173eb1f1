//! Votes and certificates that arrive, and finalization.

use std::cell::RefCell;

use simplex::assoc::AssocMap;
use simplex::block::{
    BlockSourceInfo, RawCandidateId, SlotIndex, ValidatorIndex, SIMPLEX_ROUNDLESS,
};
use simplex::candidate::WireCandidateId;
use simplex::candidate_book::{CandidateBook, ReceivedCandidate};
use simplex::certificate::{
    Certificate, CertificateError, FinalCert, NotarCert, VoteSignature, WireSignature,
};
use simplex::chain::{BlockIdExt, ShardIdent, UInt256, MASTERCHAIN_ID, SHARD_FULL};
use simplex::consensus_backend::ReplayBackend;
use simplex::consensus_controller::{
    build_simplex_signatures_variant, is_deliverable, ArrivedCertificate, CertificateDrop,
    ConsensusController, Delivery, EmitVerdict, FinalizationBreach, FinalizationInputs,
    KeySet, StoreOutcome, VoteContext, VoteDrop, VoteKind, WalkEnd, WalkLog,
    WalkReport,
};
use simplex::database::{FinalizedBlockRecord, VoteRecord};
use simplex::misbehavior::{ConflictingVoteType, MisbehaviorProof, VoteResult};
use simplex::raw_vote::RawVoteData;
use simplex::session_description::SessionDescription;
use simplex::time::{TimePoint, TimeSpan};
use simplex::votes::{FinalizeVote, NotarizeVote, SkipVote, UnsignedVote, Vote};

fn hash(first: u64) -> UInt256 {
    UInt256 { w0: first, w1: 0, w2: 0, w3: 0 }
}

fn shard(workchain_id: i32) -> ShardIdent {
    ShardIdent { workchain_id, prefix: SHARD_FULL }
}

fn block_of(workchain_id: i32, seq_no: u32) -> BlockIdExt {
    BlockIdExt {
        shard_id: shard(workchain_id),
        seq_no,
        root_hash: hash(100 + seq_no as u64),
        file_hash: hash(200 + seq_no as u64),
    }
}

fn block(seq_no: u32) -> BlockIdExt {
    block_of(0, seq_no)
}

fn id(slot: u32) -> RawCandidateId {
    RawCandidateId::from_parts(SlotIndex(slot), hash(slot as u64))
}

fn session(workchain_id: i32) -> SessionDescription {
    SessionDescription::new(
        vec![1, 1, 1], 2, vec![ValidatorIndex(0)], ValidatorIndex(0), shard(workchain_id), 4, 1,
    ).unwrap()
}

fn signatures(first: u8) -> Vec<VoteSignature> {
    (0..2u32).map(|v| {
        VoteSignature::new(ValidatorIndex(v), (0..64u8).map(|i| i + first + v as u8).collect())
    }).collect()
}

fn notar(slot: u32) -> NotarCert {
    Certificate::new(
        NotarizeVote { slot: SlotIndex(slot), block_hash: hash(slot as u64) }, signatures(1),
    )
}

fn final_cert(slot: u32) -> FinalCert {
    Certificate::new(
        FinalizeVote { slot: SlotIndex(slot), block_hash: hash(slot as u64) }, signatures(2),
    )
}

fn received(slot: u32, seq_no: u32, is_empty: bool, parent: Option<RawCandidateId>) -> ReceivedCandidate {
    ReceivedCandidate {
        slot: SlotIndex(slot),
        source_idx: ValidatorIndex(0),
        candidate_hash_data_bytes: vec![slot as u8],
        block_id: block(seq_no),
        root_hash: hash(100 + seq_no as u64),
        file_hash: hash(200 + seq_no as u64),
        data: vec![seq_no as u8],
        collated_data: vec![],
        gen_utime_ms: None,
        receive_time: TimePoint::epoch(),
        is_empty,
        parent_id: parent,
        before_split: None,
    }
}

fn vote_context() -> VoteContext {
    VoteContext {
        first_non_finalized_slot: SlotIndex(2),
        too_far_ahead: false,
        signature_valid: true,
        readable: true,
    }
}

fn notarize(slot: i32) -> UnsignedVote {
    UnsignedVote::Notarize(WireCandidateId { slot, hash: hash(7) })
}

#[test]
fn unwanted_votes_are_dropped() {
    let desc = session(0);
    let check = |who: u32, slot: i32, ctx: VoteContext| {
        ConsensusController::check_vote(ValidatorIndex(who), &notarize(slot), &ctx, &desc)
    };
    let ctx = vote_context();
    assert_eq!(check(0, 2, ctx), None);
    assert_eq!(check(3, -1, ctx), Some(VoteDrop::InvalidSource));
    assert_eq!(check(0, -1, ctx), Some(VoteDrop::NegativeSlot));
    assert_eq!(check(0, 1, ctx), Some(VoteDrop::OldSlot));
    assert_eq!(
        check(0, 2, VoteContext { too_far_ahead: true, ..ctx }),
        Some(VoteDrop::TooFarAhead)
    );
    assert_eq!(
        check(0, 2, VoteContext { signature_valid: false, ..ctx }),
        Some(VoteDrop::InvalidSignature)
    );
    assert_eq!(check(0, 2, VoteContext { readable: false, ..ctx }), Some(VoteDrop::Unreadable));
}

#[test]
fn applied_votes_are_stored_and_ask_for_candidates() {
    let desc = session(0);
    let mut c = ConsensusController::new(None, None, None, 0);
    let book = CandidateBook::new();
    let raw = RawVoteData::new(vec![1, 2]);
    let report = c.on_vote(
        1, &notarize(2), &raw, &vote_context(), &book, &desc, |_, _| VoteResult::Applied,
    );
    assert!(report.applied);
    assert_eq!(report.counted, Some(VoteKind::Notarize));
    assert_eq!(report.save.map(|v| v.to_raw_buffer()), Some(vec![1, 2]));
    assert_eq!(report.request, Some(RawCandidateId::from_parts(SlotIndex(2), hash(7))));
    let skip = UnsignedVote::Skip(2);
    let report =
        c.on_vote(1, &skip, &raw, &vote_context(), &book, &desc, |_, _| VoteResult::Applied);
    assert_eq!(report.counted, Some(VoteKind::Skip));
    assert_eq!(report.request, None);
}

#[test]
fn other_votes_are_counted_only() {
    let desc = session(0);
    let mut c = ConsensusController::new(None, None, None, 0);
    let book = CandidateBook::new();
    let raw = RawVoteData::new(vec![1]);
    let ctx = vote_context();
    let report =
        c.on_vote(1, &notarize(2), &raw, &ctx, &book, &desc, |_, _| VoteResult::Duplicate);
    assert!(!report.applied && report.save.is_none() && report.request.is_none());
    assert_eq!(report.counted, Some(VoteKind::Notarize));
    let proof = MisbehaviorProof::conflicting_votes(
        SlotIndex(2), ValidatorIndex(1), ConflictingVoteType::Notarize, hash(1), hash(2),
        RawVoteData::new(vec![1]), RawVoteData::new(vec![2]),
    );
    let report = c.on_vote(1, &notarize(2), &raw, &ctx, &book, &desc, |_, _| {
        VoteResult::Misbehavior(proof)
    });
    assert!(report.misbehavior && !report.applied);
    let report = c.on_vote(9, &notarize(2), &raw, &ctx, &book, &desc, |_, _| VoteResult::Applied);
    assert_eq!(report.dropped, Some(VoteDrop::InvalidSource));
    assert_eq!(report.counted, None);
}

#[test]
fn votes_that_are_dropped_are_not_counted() {
    let desc = session(0);
    let book = CandidateBook::new();
    let mut c = ConsensusController::new(None, None, None, 0);
    let raw = RawVoteData::new(vec![1, 2]);
    let ctx = VoteContext { signature_valid: false, ..vote_context() };
    let r = c.on_vote(1, &notarize(2), &raw, &ctx, &book, &desc, |_, _| panic!());
    assert_eq!(r.dropped, Some(VoteDrop::InvalidSignature));
    let record = VoteRecord::incoming(hash(4), &raw, ValidatorIndex(1));
    assert_eq!((record.vote_hash, record.node_idx, record.seqno), (hash(4), ValidatorIndex(1), 0));
    assert_eq!(record.data, vec![1, 2]);
}

#[test]
fn certificates_that_do_not_hold_are_not_stored() {
    let desc = session(0);
    let book = CandidateBook::new();
    let light = arrived(2, &[0]);
    assert!(light.is_wf());
    let other = ArrivedCertificate { vote: notarize(3), ..arrived(2, &[0]) };
    assert!(!other.is_wf());
    let r = ConsensusController::on_certificate(1, &light, SlotIndex(2), &book, &desc, |_| panic!());
    assert!(!r.verified);
    let check = |who: u32, slot: i32| {
        ConsensusController::precheck_certificate(
            ValidatorIndex(who), &notarize(slot), SlotIndex(2), &desc,
        )
    };
    assert_eq!(check(1, 2), None);
    assert_eq!(check(1, -1), Some(CertificateDrop::NegativeSlot));
    assert_eq!(check(3, 2), Some(CertificateDrop::InvalidSource));
    assert_eq!(check(1, 1), Some(CertificateDrop::OldSlot));
}

fn arrived(slot: i32, signers: &[i32]) -> ArrivedCertificate {
    ArrivedCertificate {
        vote: notarize(slot),
        signatures: signers.iter().map(|who| WireSignature { who: *who, signature: vec![1] }).collect(),
        valid: signers.iter().map(|_| true).collect(),
        readable_vote: Some(Vote::Notarize(NotarizeVote {
            slot: SlotIndex(slot as u32), block_hash: hash(7),
        })),
    }
}

#[test]
fn certificates_are_taken_in() {
    let desc = session(0);
    let book = CandidateBook::new();
    let first = SlotIndex(2);
    let missing = Some(RawCandidateId::from_parts(SlotIndex(2), hash(7)));
    let take = |who: u32, c: &ArrivedCertificate, store: StoreOutcome| {
        ConsensusController::on_certificate(who, c, first, &book, &desc, |_| store)
    };
    let report = take(1, &arrived(2, &[0, 1]), StoreOutcome::New);
    assert!(report.verified && !report.conflict);
    assert_eq!(report.dropped, None);
    assert_eq!(report.request, missing);
    assert_eq!(report.accepted, Some((SlotIndex(2), VoteKind::Notarize)));
    let report = take(1, &arrived(2, &[0, 1]), StoreOutcome::Known);
    assert!(report.verified);
    assert_eq!(report.accepted, None);
    let report = take(1, &arrived(2, &[0, 1]), StoreOutcome::Conflict);
    assert!(report.verified && report.conflict);
    let report = take(1, &arrived(-2, &[0, 1]), StoreOutcome::New);
    assert_eq!(report.dropped, Some(CertificateDrop::NegativeSlot));
    let report = take(3, &arrived(2, &[0, 1]), StoreOutcome::New);
    assert_eq!(report.dropped, Some(CertificateDrop::InvalidSource));
    let report = take(1, &arrived(1, &[0, 1]), StoreOutcome::New);
    assert_eq!(report.dropped, Some(CertificateDrop::OldSlot));
    let report = take(1, &arrived(2, &[0]), StoreOutcome::New);
    assert!(!report.verified);
    assert_eq!(
        report.dropped,
        Some(CertificateDrop::Unverified(CertificateError::NotEnoughWeight {
            weight: 1, threshold: 2,
        }))
    );
    let unread = ArrivedCertificate { readable_vote: None, ..arrived(2, &[0, 1]) };
    assert_eq!(
        take(1, &unread, StoreOutcome::New).dropped,
        Some(CertificateDrop::Unverified(CertificateError::UnreadableVote))
    );
}

#[test]
fn masterchain_moves_cursors_forward_only() {
    let desc = session(0);
    let mut c = ConsensusController::new(Some(5), Some(5), None, 5);
    assert!(!c.set_mc_finalized_block(block_of(1, 9), &desc));
    assert_eq!(c.last_mc_finalized_seqno(), None);
    assert!(c.set_mc_finalized_block(block(7), &desc));
    assert_eq!(c.last_mc_finalized_seqno(), Some(7));
    assert_eq!(c.last_consensus_finalized_seqno(), Some(7));
    assert_eq!(c.accepted_normal_head_seqno(), 7);
    assert_eq!(*c.accepted_normal_head_block_id(), Some(block(7)));
    assert!(c.set_mc_finalized_block(block(6), &desc));
    assert_eq!(c.last_mc_finalized_seqno(), Some(7));
    assert_eq!(c.accepted_normal_head_seqno(), 7);
    assert_eq!(*c.accepted_normal_head_block_id(), Some(block(7)));
    assert_eq!(c.finalized_head_seqno(), Some(5));
}

#[test]
fn accepted_head_names_its_block() {
    let mut c = ConsensusController::new(None, None, None, 0);
    c.advance_accepted_normal_head_block(block(4));
    c.advance_accepted_normal_head_block(block(3));
    assert_eq!(c.accepted_normal_head_seqno(), 4);
    assert_eq!(*c.accepted_normal_head_block_id(), Some(block(4)));
    c.advance_accepted_normal_head_block(block(6));
    assert_eq!(*c.accepted_normal_head_block_id(), Some(block(6)));
}

#[test]
fn accepted_seqno_may_be_ahead_of_the_block() {
    let mut c = ConsensusController::new(None, None, None, 5);
    c.advance_accepted_normal_head_block(block(3));
    assert_eq!(c.accepted_normal_head_seqno(), 5);
    assert_eq!(*c.accepted_normal_head_block_id(), Some(block(3)));
}

#[test]
fn signatures_are_split_in_halves() {
    let desc = session(0);
    let sigs = signatures(0);
    assert!(is_deliverable(&sigs, &desc));
    let set = build_simplex_signatures_variant(&sigs, SlotIndex(3), &vec![9], true, &desc);
    assert_eq!(set.slot, SlotIndex(3));
    assert_eq!(set.hash_data, vec![9]);
    assert_eq!(set.weight, 2);
    assert!(set.is_final);
    assert_eq!(set.pairs.len(), 2);
    assert_eq!(set.pairs[1].validator_idx, ValidatorIndex(1));
    assert_eq!(set.pairs[0].r, (0..32u8).collect::<Vec<u8>>());
    assert_eq!(set.pairs[0].s, (32..64u8).collect::<Vec<u8>>());
}

#[test]
fn unfit_signatures_cannot_stand_under_a_block() {
    let desc = session(0);
    assert!(!is_deliverable(&vec![], &desc));
    let short = vec![
        VoteSignature::new(ValidatorIndex(0), vec![0; 64]),
        VoteSignature::new(ValidatorIndex(1), vec![0; 63]),
    ];
    assert!(!is_deliverable(&short, &desc));
    let unknown = vec![
        VoteSignature::new(ValidatorIndex(1), vec![0; 64]),
        VoteSignature::new(ValidatorIndex(3), vec![0; 64]),
    ];
    assert!(!is_deliverable(&unknown, &desc));
    let light = vec![VoteSignature::new(ValidatorIndex(1), vec![0; 64])];
    assert!(!is_deliverable(&light, &desc));
}

struct Scene {
    book: CandidateBook,
    certs: AssocMap<RawCandidateId, NotarCert>,
    progressed: KeySet<SlotIndex>,
    noted: KeySet<SlotIndex>,
    desc: SessionDescription,
    backend: RefCell<ReplayBackend>,
}

impl Scene {
    fn new(workchain_id: i32) -> Scene {
        Scene {
            book: CandidateBook::new(),
            certs: AssocMap::new(),
            progressed: AssocMap::new(),
            noted: AssocMap::new(),
            desc: session(workchain_id),
            backend: RefCell::new(ReplayBackend::new()),
        }
    }

    fn add(&mut self, slot: u32, seq_no: u32, is_empty: bool, parent: Option<u32>) {
        let entry = received(slot, seq_no, is_empty, parent.map(id));
        self.book.insert_received(id(slot), entry);
    }

    fn inputs(&self) -> FinalizationInputs<'_> {
        FinalizationInputs {
            book: &self.book, notar_certs: &self.certs, progressed: &self.progressed,
            noted: &self.noted, desc: &self.desc,
        }
    }

    fn stored(&self) -> Vec<FinalizedBlockRecord> {
        self.backend.borrow().stored.iter().map(|e| e.0).collect()
    }

    fn handed(&self) -> Vec<(BlockIdExt, BlockSourceInfo, bool, SlotIndex)> {
        self.backend.borrow().handed.iter().map(|(cb, _)| {
            (cb.block_id, cb.source, cb.signatures.is_final, cb.signatures.slot)
        }).collect()
    }

    fn finalize(&self, c: &mut ConsensusController, slot: u32) -> Vec<(RawCandidateId, WalkReport)> {
        let mut backend = self.backend.borrow_mut();
        let report = c.handle_block_finalized(
            id(slot), final_cert(slot), TimePoint { nanos: 50 }, &self.inputs(), &mut *backend,
        );
        assert!(!report.underweight);
        report.walks
    }

    fn retry(&self, c: &mut ConsensusController) -> Vec<(RawCandidateId, WalkReport)> {
        let mut backend = self.backend.borrow_mut();
        c.retry_pending_recursive_finalization(&self.inputs(), &mut *backend)
    }
}

#[test]
fn finalization_reaches_back_over_the_chain() {
    let mut scene = Scene::new(0);
    scene.add(1, 5, false, None);
    scene.add(2, 6, false, Some(1));
    scene.add(3, 6, true, Some(2));
    scene.certs.insert(id(1), notar(1));
    scene.progressed.insert(SlotIndex(2), ());
    let mut c = ConsensusController::new(None, None, None, 0);
    let r = scene.finalize(&mut c, 3);
    assert_eq!(r.len(), 1);
    assert_eq!(r[0].1.end, WalkEnd::Complete);
    assert_eq!(r[0].1.resets, vec![SlotIndex(2)]);
    assert_eq!(
        r[0].1.deliveries,
        vec![
            Delivery { id: id(2), is_final: true, ok: true },
            Delivery { id: id(1), is_final: false, ok: true },
        ]
    );
    let leader = BlockSourceInfo {
        source_idx: ValidatorIndex(0),
        round: SIMPLEX_ROUNDLESS,
        first_block_round: SIMPLEX_ROUNDLESS,
        priority: 0,
    };
    assert_eq!(
        scene.handed(),
        vec![
            (block(6), leader, true, SlotIndex(3)),
            (block(5), leader, false, SlotIndex(1)),
        ]
    );
    let stored = scene.stored();
    assert_eq!(stored.len(), 3);
    assert_eq!(
        stored[1],
        FinalizedBlockRecord {
            candidate_id: id(2), block_id: block(6), parent: Some(id(1)), is_final: true,
        }
    );
    assert!(!stored[2].is_final);
    assert_eq!(c.finalized_head_seqno(), Some(6));
    assert_eq!(c.finalized_head_slot(), Some(SlotIndex(2)));
    assert_eq!(*c.finalized_head_block_id(), Some(block(6)));
    assert_eq!(c.last_consensus_finalized_seqno(), Some(6));
    assert_eq!(*c.accepted_normal_head_block_id(), Some(block(6)));
    assert!(c.is_finalized_block(&id(1)) && c.is_finalized_block(&id(3)));
    assert_eq!(c.finalized_pending_body_len(), 0);
    assert_eq!(c.finalized_delivery_sent_seqno_block_id(5), Some(block(5)));
}

#[test]
fn blocks_are_handed_over_once() {
    let mut scene = Scene::new(0);
    scene.add(1, 5, false, None);
    scene.add(2, 6, false, Some(1));
    scene.certs.insert(id(1), notar(1));
    let mut c = ConsensusController::new(None, None, None, 0);
    scene.finalize(&mut c, 2);
    let again = scene.finalize(&mut c, 2);
    assert_eq!(again[0].1.end, WalkEnd::Complete);
    assert!(again[0].1.deliveries.is_empty() && again[0].1.writes.is_empty());
    assert_eq!(scene.handed().len(), 2);
}

#[test]
fn missing_bodies_are_waited_for() {
    let mut scene = Scene::new(0);
    scene.add(2, 6, false, Some(1));
    let mut c = ConsensusController::new(None, None, None, 0);
    let r = scene.finalize(&mut c, 2);
    assert_eq!(r[0].1.end, WalkEnd::Incomplete);
    assert_eq!(r[0].1.requests, vec![id(1)]);
    assert_eq!(c.finalized_pending_body_len(), 1);
    assert_eq!(c.finalized_pending_finalized_at(&id(2)), Some(TimePoint { nanos: 50 }));
    scene.add(1, 5, false, None);
    let r = scene.retry(&mut c);
    assert_eq!(r[0].1.end, WalkEnd::Incomplete);
    assert_eq!(r[0].1.requests, vec![id(1)]);
    scene.certs.insert(id(1), notar(1));
    let r = scene.retry(&mut c);
    assert_eq!(r[0].0, id(2));
    assert_eq!(r[0].1.end, WalkEnd::Complete);
    assert_eq!(c.finalized_pending_body_len(), 0);
    assert!(scene.retry(&mut c).is_empty());
}

#[test]
fn masterchain_hands_over_the_finalized_block_only() {
    let mut scene = Scene::new(MASTERCHAIN_ID);
    let on_master = |slot: u32, seq_no: u32, parent: Option<RawCandidateId>| ReceivedCandidate {
        block_id: block_of(MASTERCHAIN_ID, seq_no), ..received(slot, seq_no, false, parent)
    };
    scene.book.insert_received(id(1), on_master(1, 5, None));
    scene.book.insert_received(id(2), on_master(2, 6, Some(id(1))));
    let mut c = ConsensusController::new(None, None, None, 0);
    let r = scene.finalize(&mut c, 2);
    assert_eq!(r[0].1.end, WalkEnd::Complete);
    assert_eq!(r[0].1.deliveries, vec![Delivery { id: id(2), is_final: true, ok: true }]);
    assert!(c.finalized_delivery_sent_contains(&id(1)));
    assert!(!c.is_finalized_block(&id(1)));
}

#[test]
fn lost_masterchain_callbacks_stop_finalization() {
    let mut scene = Scene::new(MASTERCHAIN_ID);
    scene.book.insert_received(id(2), ReceivedCandidate {
        block_id: block_of(MASTERCHAIN_ID, 6), ..received(2, 6, false, None)
    });
    scene.backend.borrow_mut().handing_works = false;
    let mut c = ConsensusController::new(None, None, None, 0);
    let r = scene.finalize(&mut c, 2);
    assert_eq!(r[0].1.end, WalkEnd::Breach(FinalizationBreach::CallbackLost(id(2))));
}

#[test]
fn seqnos_are_not_reused() {
    let mut scene = Scene::new(0);
    scene.add(2, 6, false, None);
    let mut c = ConsensusController::new(None, None, None, 0);
    c.insert_finalized_delivery_sent_seqno(6, SlotIndex(1), block_of(0, 9));
    let r = scene.finalize(&mut c, 2);
    assert_eq!(
        r[0].1.end,
        WalkEnd::Breach(FinalizationBreach::SeqnoReused {
            seqno: 6, existing: block(9), new: block(6),
        })
    );
}

#[test]
fn only_certificates_that_are_used_have_to_be_whole() {
    let mut scene = Scene::new(0);
    scene.add(1, 5, false, None);
    scene.add(2, 6, false, Some(1));
    scene.certs.insert(id(9), Certificate::new(
        NotarizeVote { slot: SlotIndex(9), block_hash: hash(9) }, vec![],
    ));
    scene.certs.insert(id(1), notar(1));
    let mut c = ConsensusController::new(None, None, None, 0);
    assert_eq!(scene.finalize(&mut c, 2)[0].1.end, WalkEnd::Complete);

    scene.certs.insert(id(1), Certificate::new(
        NotarizeVote { slot: SlotIndex(1), block_hash: hash(1) }, vec![],
    ));
    let mut c = ConsensusController::new(None, None, None, 0);
    let r = scene.finalize(&mut c, 2);
    assert_eq!(r[0].1.deliveries.len(), 1);
    assert_eq!(r[0].1.end, WalkEnd::Breach(FinalizationBreach::UnusableSignatures(id(1))));
    c.insert_finalized_delivery_sent(id(1));
    assert_eq!(scene.finalize(&mut c, 2)[0].1.end, WalkEnd::Complete);
}

fn empty_log() -> WalkLog {
    WalkLog {
        writes: vec![], deliveries: vec![], requests: vec![], resets: vec![], firsts: vec![],
        last_finalized: None, complete: true,
    }
}

#[test]
fn later_answers_count_whatever_was_logged_before() {
    let mut scene = Scene::new(0);
    scene.add(2, 6, false, None);
    scene.progressed.insert(SlotIndex(2), ());
    let inputs = scene.inputs();
    let rec = received(2, 6, false, None);
    let sigs = signatures(2);
    let mut c = ConsensusController::new(None, None, None, 0);
    let mut log = empty_log();
    let mut b = ReplayBackend::new();
    let apply = |c: &mut ConsensusController, b: &mut ReplayBackend, log: &mut WalkLog| {
        c.maybe_apply_finalized_state(&id(2), &rec, true, &scene.progressed, &scene.noted, b, log)
    };

    b.storing_works = false;
    assert!(!apply(&mut c, &mut b, &mut log));
    assert!(!c.is_finalized_block(&id(2)) && !log.complete);
    assert_eq!((log.last_finalized, log.firsts.len()), (None, 1));
    b.storing_works = true;
    assert!(apply(&mut c, &mut b, &mut log));
    assert!(c.is_finalized_block(&id(2)));
    assert_eq!(log.writes.iter().map(|w| w.1).collect::<Vec<bool>>(), vec![false, true]);
    assert_eq!(log.resets, vec![SlotIndex(2)]);
    assert_eq!(log.firsts, vec![SlotIndex(2)]);
    assert_eq!(log.last_finalized, Some(SlotIndex(2)));
    assert!(apply(&mut c, &mut b, &mut log));
    assert_eq!(b.stored.len(), 2);
    assert_eq!(log.writes, b.stored);

    let data = vec![2];
    assert_eq!(c.check_emit(&id(2), &rec, true, &id(2), &data, &sigs, &inputs), None);
    let emit = |c: &mut ConsensusController, b: &mut ReplayBackend, log: &mut WalkLog| {
        c.try_emit_recursive_finalized_callback(
            &id(2), &rec, true, &id(2), &data, &sigs, &inputs, b, log,
        )
    };
    b.handing_works = false;
    assert_eq!(emit(&mut c, &mut b, &mut log), None);
    assert!(!c.finalized_delivery_sent_contains(&id(2)));
    b.handing_works = true;
    emit(&mut c, &mut b, &mut log);
    assert!(c.finalized_delivery_sent_contains(&id(2)));
    assert_eq!(c.finalized_delivery_sent_seqno_block_id(6), Some(block(6)));
    emit(&mut c, &mut b, &mut log);
    assert_eq!(b.handed.iter().map(|h| h.1).collect::<Vec<bool>>(), vec![false, true]);
    assert_eq!(log.deliveries.iter().map(|d| d.ok).collect::<Vec<bool>>(), vec![false, true]);
}

#[test]
fn candidates_that_are_not_there_are_not_applied() {
    let scene = Scene::new(0);
    let stub = ReceivedCandidate {
        candidate_hash_data_bytes: vec![], ..received(2, 6, false, None)
    };
    let mut c = ConsensusController::new(None, None, None, 0);
    let mut log = empty_log();
    let mut b = ReplayBackend::new();
    assert!(c.maybe_apply_finalized_state(
        &id(2), &stub, true, &scene.progressed, &scene.noted, &mut b, &mut log,
    ));
    assert!(!c.is_finalized_block(&id(2)) && log.complete && b.stored.is_empty());
}

#[test]
fn first_finalized_candidates_are_noted() {
    let mut scene = Scene::new(0);
    scene.add(1, 5, false, None);
    scene.add(2, 6, false, Some(1));
    scene.certs.insert(id(1), notar(1));
    scene.noted.insert(SlotIndex(2), ());
    let mut c = ConsensusController::new(None, None, None, 0);
    let r = scene.finalize(&mut c, 2);
    assert_eq!(r[0].1.firsts, vec![SlotIndex(1)]);
    assert_eq!(r[0].1.last_finalized, Some(SlotIndex(1)));
    assert_eq!(scene.finalize(&mut c, 2)[0].1.last_finalized, None);
}

#[test]
fn light_certificates_are_reported() {
    let mut scene = Scene::new(0);
    scene.add(2, 6, true, None);
    let mut c = ConsensusController::new(None, None, None, 0);
    let cert = Certificate::new(
        FinalizeVote { slot: SlotIndex(2), block_hash: hash(2) },
        signatures(2).into_iter().take(1).collect(),
    );
    let r = c.handle_block_finalized(
        id(2), cert, TimePoint { nanos: 50 }, &scene.inputs(), &mut ReplayBackend::new(),
    );
    assert!(r.underweight);
    assert_eq!(r.walks[0].1.end, WalkEnd::Complete);
}

#[test]
fn seqnos_are_delivered_once() {
    let mut scene = Scene::new(0);
    scene.add(1, 5, false, None);
    scene.add(2, 6, false, Some(1));
    scene.certs.insert(id(1), notar(1));
    scene.backend.borrow_mut().handing_works = false;
    let mut c = ConsensusController::new(None, None, None, 0);
    scene.finalize(&mut c, 2);
    assert_eq!(scene.handed().len(), 2);
    scene.backend.borrow_mut().handing_works = true;
    scene.retry(&mut c);
    scene.retry(&mut c);
    c.prune_below(SlotIndex(9));
    scene.finalize(&mut c, 2);
    let seqnos: Vec<(u32, bool)> =
        scene.backend.borrow().handed.iter().map(|h| (h.0.block_id.seq_no, h.1)).collect();
    assert_eq!(seqnos, vec![(6, false), (5, false), (6, true), (5, true)]);
}

#[test]
fn delivery_is_checked_before() {
    let scene = Scene::new(0);
    let inputs = scene.inputs();
    let rec = received(2, 6, false, None);
    let sigs = signatures(2);
    let mut c = ConsensusController::new(None, None, None, 0);
    let check = |c: &ConsensusController, data: Vec<u8>, sigs: &Vec<VoteSignature>| {
        c.check_emit(&id(2), &rec, true, &id(3), &data, sigs, &inputs)
    };
    assert_eq!(check(&c, vec![3], &sigs), None);
    assert_eq!(check(&c, vec![], &sigs), Some(FinalizationBreach::MissingHashData(id(3))));
    assert_eq!(check(&c, vec![3], &vec![]), Some(FinalizationBreach::UnusableSignatures(id(2))));
    c.insert_finalized_delivery_sent_seqno(6, SlotIndex(1), block(9));
    assert_eq!(
        check(&c, vec![3], &sigs),
        Some(FinalizationBreach::SeqnoReused { seqno: 6, existing: block(9), new: block(6) })
    );
}

#[test]
fn hash_data_of_the_finalized_candidate_is_needed() {
    let mut scene = Scene::new(0);
    scene.add(1, 5, false, None);
    scene.book.insert_received(id(2), ReceivedCandidate {
        candidate_hash_data_bytes: vec![], ..received(2, 5, true, Some(id(1)))
    });
    let mut c = ConsensusController::new(None, None, None, 0);
    let r = scene.finalize(&mut c, 2);
    assert_eq!(r[0].1.end, WalkEnd::Breach(FinalizationBreach::MissingHashData(id(2))));
}

#[test]
fn failed_writes_leave_finalization_waiting() {
    let mut scene = Scene::new(0);
    scene.add(2, 6, false, None);
    scene.backend.borrow_mut().storing_works = false;
    let mut c = ConsensusController::new(None, None, None, 0);
    let r = scene.finalize(&mut c, 2);
    assert_eq!(r[0].1.end, WalkEnd::Incomplete);
    assert_eq!(r[0].1.writes.len(), 1);
    assert!(!r[0].1.writes[0].1);
    assert!(!c.is_finalized_block(&id(2)));
    assert_eq!(c.finalized_pending_body_len(), 1);
}

#[test]
fn cycles_and_registered_blocks_end_the_walk() {
    let mut scene = Scene::new(0);
    scene.add(1, 5, true, Some(2));
    scene.add(2, 6, true, Some(1));
    let mut c = ConsensusController::new(None, None, None, 0);
    assert_eq!(scene.finalize(&mut c, 2)[0].1.end, WalkEnd::Cycle);

    let mut scene = Scene::new(0);
    scene.add(1, 5, false, Some(0));
    scene.add(2, 8, false, Some(1));
    let mut c = ConsensusController::new(None, None, Some(7), 0);
    let r = scene.finalize(&mut c, 2);
    assert_eq!(r[0].1.end, WalkEnd::Complete);
    assert_eq!(r[0].1.deliveries.len(), 1);
    assert!(c.finalized_delivery_sent_contains(&id(1)));
}

#[test]
fn emission_is_planned() {
    let desc = session(0);
    let mut c = ConsensusController::new(None, None, Some(4), 0);
    let rec = received(2, 6, false, None);
    assert_eq!(c.plan_emit(&id(2), &rec, true, false, &desc), EmitVerdict::Deliver);
    assert_eq!(c.plan_emit(&id(2), &rec, false, true, &desc), EmitVerdict::Deliver);
    assert_eq!(c.plan_emit(&id(2), &rec, false, false, &desc), EmitVerdict::MissingCertificate);
    assert_eq!(
        c.plan_emit(&id(2), &received(2, 3, false, None), true, true, &desc),
        EmitVerdict::Suppressed
    );
    assert_eq!(
        c.plan_emit(&id(2), &received(2, 6, true, None), true, true, &desc),
        EmitVerdict::Nothing
    );
    assert_eq!(
        c.plan_emit(&id(2), &rec, false, true, &session(MASTERCHAIN_ID)),
        EmitVerdict::Suppressed
    );
    c.insert_finalized_delivery_sent_seqno(6, SlotIndex(1), block(6));
    assert_eq!(c.plan_emit(&id(2), &rec, true, true, &desc), EmitVerdict::SameBlock);
    c.insert_finalized_delivery_sent_seqno(6, SlotIndex(1), block(9));
    assert_eq!(c.plan_emit(&id(2), &rec, true, true, &desc), EmitVerdict::Conflict(block(9)));
    c.insert_finalized_delivery_sent(id(2));
    assert_eq!(c.plan_emit(&id(2), &rec, true, true, &desc), EmitVerdict::Nothing);
}

#[test]
fn finalized_state_notes_splits() {
    let mut c = ConsensusController::new(None, None, None, 0);
    let rec = ReceivedCandidate { before_split: Some(true), ..received(2, 6, false, None) };
    c.apply_finalized_state(&id(2), &rec);
    assert!(c.finalized_head_before_split());
    assert_eq!(c.before_split_by_block_id(&block(6)), Some(true));
    c.apply_finalized_state(&id(1), &received(1, 5, false, None));
    assert_eq!(c.finalized_head_seqno(), Some(6));
    assert!(c.finalized_head_before_split());
    c.apply_finalized_state(&id(3), &received(3, 7, false, None));
    assert!(!c.finalized_head_before_split());
    c.apply_finalized_state(&id(4), &received(4, 7, true, None));
    assert_eq!(c.finalized_head_slot(), Some(SlotIndex(4)));
    assert_eq!(c.finalized_head_seqno(), Some(7));
}

#[test]
fn state_is_pruned() {
    let mut c = ConsensusController::new(Some(1), None, None, 0);
    c.insert_finalized_block(id(1));
    c.insert_finalized_block(id(5));
    c.insert_finalized_delivery_sent(id(1));
    c.insert_finalized_delivery_sent(id(5));
    c.insert_finalized_delivery_sent_seqno(3, SlotIndex(1), block(3));
    c.insert_finalized_delivery_sent_seqno(4, SlotIndex(5), block(4));
    c.prune_below(SlotIndex(5));
    assert!(c.is_finalized_block(&id(1)) && c.is_finalized_block(&id(5)));
    assert!(!c.finalized_delivery_sent_contains(&id(1)));
    assert!(c.finalized_delivery_sent_contains(&id(5)));
    assert_eq!(c.finalized_delivery_sent_seqno_block_id(3), Some(block(3)));
    assert_eq!(c.finalized_delivery_sent_seqno_block_id(4), Some(block(4)));
}

#[test]
fn state_is_set() {
    let mut c = ConsensusController::new(None, None, None, 0);
    c.set_finalized_head(8, SlotIndex(3), block(8));
    assert_eq!(c.finalized_head_seqno(), Some(8));
    assert_eq!(c.finalized_head_slot(), Some(SlotIndex(3)));
    assert_eq!(*c.finalized_head_block_id(), Some(block(8)));
    c.set_last_consensus_finalized_seqno(Some(4));
    assert_eq!(c.last_consensus_finalized_seqno(), Some(4));
    c.set_last_mc_finalized_seqno(Some(3));
    assert_eq!(c.last_mc_finalized_seqno(), Some(3));
    c.insert_before_split(block(8), true);
    assert_eq!(c.before_split_by_block_id(&block(8)), Some(true));
    assert_eq!(c.before_split_by_block_id(&block(9)), None);
}

#[test]
fn notarizations_are_followed() {
    let desc = session(0);
    let mut book = CandidateBook::new();
    let r = ConsensusController::handle_notarization_reached(&id(1), &book, &desc);
    assert!(r.request && r.observed.is_none());
    book.insert_received(id(1), received(1, 5, false, None));
    let r = ConsensusController::handle_notarization_reached(&id(1), &book, &desc);
    assert!(!r.request);
    let observed = r.observed.unwrap();
    assert_eq!(observed.block_id, block(5));
    assert_eq!(observed.data, vec![5]);
    assert!(observed.local_collated);
    book.insert_received(id(2), received(2, 5, true, Some(id(1))));
    let r = ConsensusController::handle_notarization_reached(&id(2), &book, &desc);
    assert!(!r.request && r.observed.is_none());
}

#[test]
fn own_votes_are_signed() {
    let vote = Vote::Notarize(NotarizeVote { slot: SlotIndex(2), block_hash: hash(1) });
    let start = TimePoint { nanos: 100 };
    let now = TimePoint { nanos: 150 };
    let out = ConsensusController::broadcast_vote_after_persist(&vote, false, start, now, |_| {
        Some(vec![1])
    });
    assert_eq!(out.first_notarized, Some(SlotIndex(2)));
    assert_eq!(out.latency, Some(TimeSpan { nanos: 50 }));
    assert_eq!(out.signature, Some(vec![1]));
    let out = ConsensusController::broadcast_vote_after_persist(&vote, true, start, now, |_| None);
    assert_eq!(out.first_notarized, None);
    assert_eq!(out.latency, None);
    assert_eq!(out.signature, None);
    let early = ConsensusController::broadcast_vote_after_persist(&vote, false, now, start, |_| None);
    assert_eq!(early.latency, None);
    let skip = Vote::Skip(SkipVote { slot: SlotIndex(2) });
    let out = ConsensusController::broadcast_vote_after_persist(&skip, false, start, now, |_| None);
    assert_eq!(out.first_notarized, None);
}
