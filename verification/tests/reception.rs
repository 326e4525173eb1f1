//! The candidate book, reception of candidates and their repair.

use simplex::block::{CandidateHashInput, RawCandidateId, SlotIndex, ValidatorIndex};
use simplex::candidate::{
    BlockInfo, BlockInfoOutcome, CandidateData, CandidateError, WireCandidateId,
};
use simplex::candidate_book::{CandidateBook, ParentTipResolution, ReceivedCandidate};
use simplex::candidate_controller::{
    CandidateAnswer, CandidateController, DelayedDecision, EnsureOutcome, IngressChecks,
    IngressContext, IngressCounter, IngressOutcome, MissReason, MissedNote, RebuildError,
    RepairContext, RequestDecision, StoredCandidateInfo,
};
use simplex::chain::{BlockIdExt, ShardIdent, UInt256, SHARD_FULL};
use simplex::session_description::SessionDescription;
use simplex::time::{TimePoint, TimeSpan};

const SEC: u128 = 1_000_000_000;

fn hash(first: u64) -> UInt256 {
    UInt256 { w0: first, w1: 0, w2: 0, w3: 0 }
}

fn block(seq_no: u32) -> BlockIdExt {
    BlockIdExt {
        shard_id: ShardIdent { workchain_id: 0, prefix: SHARD_FULL },
        seq_no,
        root_hash: hash(100),
        file_hash: hash(101),
    }
}

fn id(slot: u32, first: u64) -> RawCandidateId {
    RawCandidateId::from_parts(SlotIndex(slot), hash(first))
}

fn at(secs: u128) -> TimePoint {
    TimePoint { nanos: (secs * SEC) as i128 }
}

fn session() -> SessionDescription {
    SessionDescription::new(
        vec![1, 1, 1], 3, vec![ValidatorIndex(0), ValidatorIndex(1), ValidatorIndex(2)],
        ValidatorIndex(2), ShardIdent { workchain_id: 0, prefix: SHARD_FULL }, 2, 1,
    ).unwrap()
}

fn record(slot: u32, seq_no: u32, is_empty: bool, parent: Option<RawCandidateId>) -> ReceivedCandidate {
    ReceivedCandidate {
        slot: SlotIndex(slot),
        source_idx: ValidatorIndex(0),
        candidate_hash_data_bytes: vec![1],
        block_id: block(seq_no),
        root_hash: hash(100),
        file_hash: hash(101),
        data: if is_empty { vec![] } else { vec![1] },
        collated_data: vec![],
        gen_utime_ms: None,
        receive_time: at(1),
        is_empty,
        parent_id: parent,
        before_split: None,
    }
}

fn stub(slot: u32, seq_no: u32) -> ReceivedCandidate {
    ReceivedCandidate { candidate_hash_data_bytes: vec![], ..record(slot, seq_no, false, None) }
}

#[test]
fn book_keeps_what_was_received() {
    let mut book = CandidateBook::new();
    assert_eq!(book.received_count(), 0);
    assert!(book.insert_received(id(1, 1), record(1, 5, false, None)).is_none());
    assert!(book.contains_received(&id(1, 1)));
    assert_eq!(book.received(&id(1, 1)).map(|c| c.block_id), Some(block(5)));
    assert!(book.received(&id(1, 2)).is_none());
    let old = book.insert_received(id(1, 1), stub(1, 6));
    assert_eq!(old.map(|c| c.block_id), Some(block(5)));
    assert!(!book.has_real_body(&id(1, 1)));
    assert!(!book.has_real_body(&id(9, 9)));
    book.insert_received(id(2, 2), record(2, 7, false, None));
    assert!(book.has_real_body(&id(2, 2)));
    assert_eq!(book.received_count(), 2);
    assert_eq!(book.received_ids().len(), 2);
    assert_eq!(book.find_received_by_block_id(&block(7)), Some(id(2, 2)));
    assert_eq!(book.find_received_by_block_id(&block(8)), None);
    book.retain_received(|key, c| key.slot.0 > 1 && c.block_id.seq_no == 7);
    assert_eq!(book.received_ids(), vec![id(2, 2)]);
}

#[test]
fn book_prunes_slots() {
    let mut book = CandidateBook::new();
    book.insert_received(id(1, 1), record(1, 5, false, None));
    assert!(book.insert_cached_data(id(1, 1), vec![1]).is_none());
    assert_eq!(book.insert_cached_data(id(1, 1), vec![2]), Some(vec![1]));
    book.insert_cached_data(id(3, 1), vec![3]);
    book.insert_seen_broadcast(SlotIndex(1), id(1, 1));
    book.insert_seen_broadcast(SlotIndex(3), id(3, 1));
    book.prune_below(SlotIndex(3));
    assert!(book.contains_received(&id(1, 1)));
    assert!(!book.contains_cached_data(&id(1, 1)));
    assert_eq!(book.cached_data(&id(3, 1)), Some(&vec![3]));
    assert!(!book.contains_seen_broadcast(SlotIndex(1)));
    assert_eq!(book.seen_broadcast(SlotIndex(3)), Some(&id(3, 1)));
    book.prune_below(SlotIndex(2));
    assert!(book.contains_cached_data(&id(3, 1)));
}

#[test]
fn first_broadcast_of_a_slot_stays() {
    let mut book = CandidateBook::new();
    assert_eq!(book.insert_seen_broadcast(SlotIndex(1), id(1, 1)), None);
    assert_eq!(book.insert_seen_broadcast(SlotIndex(1), id(1, 2)), Some(id(1, 1)));
    book.insert_seen_broadcast(SlotIndex(2), id(2, 2));
    assert_eq!(book.seen_broadcast(SlotIndex(1)), Some(&id(1, 1)));
}

#[test]
fn parent_chains_lead_to_blocks() {
    let mut book = CandidateBook::new();
    book.insert_received(id(1, 1), record(1, 5, false, None));
    book.insert_received(id(2, 2), record(2, 5, true, Some(id(1, 1))));
    book.insert_received(id(3, 3), record(3, 5, true, Some(id(2, 2))));
    book.insert_received(id(5, 5), record(5, 5, true, Some(id(4, 4))));
    book.insert_received(id(6, 6), record(6, 5, true, None));
    assert_eq!(
        book.resolve_parent_tip(Some(&id(3, 3)), None),
        ParentTipResolution::Resolved(block(5))
    );
    assert_eq!(
        book.resolve_parent_tip(Some(&id(5, 5)), None),
        ParentTipResolution::MissingParent(id(4, 4))
    );
    assert_eq!(book.resolve_parent_tip(Some(&id(6, 6)), None), ParentTipResolution::Unresolved);
    assert_eq!(
        book.resolve_parent_tip(None, Some(&block(3))),
        ParentTipResolution::Resolved(block(3))
    );
    assert_eq!(book.resolve_parent_tip(None, None), ParentTipResolution::Unresolved);
}

#[test]
fn endless_parent_chains_are_too_deep() {
    let mut book = CandidateBook::new();
    book.insert_received(id(1, 1), record(1, 5, true, Some(id(2, 2))));
    book.insert_received(id(2, 2), record(2, 5, true, Some(id(1, 1))));
    assert_eq!(book.resolve_parent_tip(Some(&id(1, 1)), None), ParentTipResolution::TooDeep);
}

fn tl(slot: i32) -> CandidateData {
    CandidateData::Block { slot, candidate: vec![1], parent: None, signature: vec![7] }
}

fn empty_tl(slot: i32) -> CandidateData {
    CandidateData::Empty {
        slot,
        parent: WireCandidateId { slot: slot - 1, hash: hash(50) },
        block: block(4),
        signature: vec![7],
    }
}

fn checks(first: u64) -> IngressChecks {
    IngressChecks {
        info: BlockInfoOutcome::Present(BlockInfo {
            block_id: block(5),
            collated_file_hash: hash(102),
            data: vec![1, 2],
            collated_data: vec![3],
        }),
        leader_key: hash(60),
        hash: hash(first),
        signature_valid: true,
        serialized: Some(vec![4, 4]),
        hash_data: vec![5],
        gen_utime_ms: Some(1234),
        before_split: Some(true),
    }
}

fn context() -> IngressContext {
    IngressContext {
        now: at(10),
        too_far_ahead: false,
        first_non_finalized_slot: SlotIndex(2),
        known_in_validation: false,
        notarized: true,
    }
}

#[test]
fn new_candidates_are_stored() {
    let desc = session();
    let mut c = CandidateController::new();
    let report = c.receive_candidate(1, &tl(2), None, &checks(77), &context(), &desc);
    match report.outcome {
        IngressOutcome::Stored {
            raw_candidate, slot, hash: h, leader_idx, receive_time, before_split, observed,
            notar_cert, payload, info,
        } => {
            assert_eq!(raw_candidate.id, id(2, 77));
            assert_eq!(slot, SlotIndex(2));
            assert_eq!(h, hash(77));
            assert_eq!(leader_idx, ValidatorIndex(1));
            assert_eq!(receive_time, at(10));
            assert_eq!(before_split, Some((block(5), true)));
            let observed = observed.unwrap();
            assert_eq!(observed.block_id, block(5));
            assert_eq!(observed.data, vec![1, 2]);
            assert!(observed.body_present && observed.parent_ready && !observed.local_collated);
            assert!(notar_cert.is_none());
            assert_eq!(payload, Some(vec![4, 4]));
            assert_eq!(info.hash_data, vec![5]);
            assert_eq!(info.signature, vec![7]);
            assert_eq!(info.leader_idx, ValidatorIndex(1));
        },
        other => panic!("not stored: {:?}", other),
    }
    assert_eq!(
        report.counters,
        vec![IngressCounter::Received { sender: ValidatorIndex(1), broadcast: true }]
    );
    assert_eq!(report.missed, None);
    let entry = c.book().received(&id(2, 77)).unwrap();
    assert_eq!(entry.source_idx, ValidatorIndex(1));
    assert_eq!(entry.gen_utime_ms, Some(1234));
    assert_eq!(entry.before_split, Some(true));
    assert_eq!(entry.collated_data, vec![3]);
    assert_eq!(c.book().cached_data(&id(2, 77)), Some(&vec![4, 4]));
    assert_eq!(c.book().seen_broadcast(SlotIndex(2)), Some(&id(2, 77)));
}

#[test]
fn empty_candidates_are_stored_with_their_parent() {
    let desc = session();
    let mut c = CandidateController::new();
    let report = c.receive_candidate(0, &empty_tl(2), Some(vec![9]), &checks(77), &context(), &desc);
    match report.outcome {
        IngressOutcome::Stored { before_split, observed, notar_cert, .. } => {
            assert!(before_split.is_none());
            assert!(observed.is_none());
            assert_eq!(notar_cert, Some(vec![9]));
        },
        other => panic!("not stored: {:?}", other),
    }
    let entry = c.book().received(&id(2, 77)).unwrap();
    assert!(entry.is_empty);
    assert_eq!(entry.parent_id, Some(id(1, 50)));
    assert_eq!(entry.gen_utime_ms, None);
    assert!(entry.data.is_empty());
    assert!(!c.book().contains_seen_broadcast(SlotIndex(2)));
}

#[test]
fn stored_candidates_are_known() {
    let desc = session();
    let mut c = CandidateController::new();
    c.receive_candidate(1, &tl(2), None, &checks(77), &context(), &desc);
    let again = c.receive_candidate(0, &tl(2), None, &checks(77), &context(), &desc);
    assert!(matches!(again.outcome, IngressOutcome::AlreadyKnown { .. }));
    assert_eq!(
        again.counters,
        vec![
            IngressCounter::Received { sender: ValidatorIndex(0), broadcast: true },
            IngressCounter::RelayedBroadcast,
        ]
    );
}

#[test]
fn stubs_are_replaced() {
    let desc = session();
    let mut c = CandidateController::new();
    c.book_mut().insert_received(id(2, 77), stub(2, 5));
    let ctx = IngressContext { known_in_validation: true, ..context() };
    let report = c.receive_candidate(1, &tl(2), None, &checks(77), &ctx, &desc);
    assert!(matches!(report.outcome, IngressOutcome::Stored { .. }));
    assert!(c.book().has_real_body(&id(2, 77)));
}

#[test]
fn second_broadcast_of_a_slot_is_refused() {
    let desc = session();
    let mut c = CandidateController::new();
    c.receive_candidate(1, &tl(2), None, &checks(77), &context(), &desc);
    let second = c.receive_candidate(2, &tl(2), None, &checks(78), &context(), &desc);
    assert!(matches!(second.outcome, IngressOutcome::Rejected));
    assert_eq!(second.counters[2], IngressCounter::ConflictingSlotDrop);
    assert_eq!(
        second.missed,
        Some(MissedNote {
            slot: SlotIndex(2),
            id: Some(id(2, 78)),
            reason: MissReason::ConflictingSlot(id(2, 77)),
        })
    );
    assert!(!c.book().contains_received(&id(2, 78)));
    let answer = c.receive_candidate(1, &tl(2), Some(vec![1]), &checks(78), &context(), &desc);
    assert!(matches!(answer.outcome, IngressOutcome::Stored { .. }));
}

#[test]
fn unwanted_candidates_are_dropped_before_they_are_decoded() {
    let desc = session();
    let check = |who: u32, candidate: &CandidateData, broadcast: bool, ctx: &IngressContext| {
        CandidateController::precheck_candidate(who, candidate, broadcast, ctx, &desc)
    };
    assert!(check(1, &tl(2), true, &context()).is_none());
    assert!(check(1, &tl(1), false, &context()).is_none());
    let old = check(2, &tl(1), true, &context()).unwrap();
    assert!(matches!(old.outcome, IngressOutcome::Rejected));
    assert_eq!(
        old.counters,
        vec![
            IngressCounter::Received { sender: ValidatorIndex(2), broadcast: true },
            IngressCounter::RelayedBroadcast,
            IngressCounter::OldSlotDrop,
        ]
    );
    assert!(check(1, &tl(-1), true, &context()).unwrap().counters.is_empty());
    assert!(check(1, &empty_tl(0), true, &context()).unwrap().counters.is_empty());
    let far = IngressContext { too_far_ahead: true, ..context() };
    assert_eq!(check(1, &tl(2), false, &far).unwrap().counters.len(), 1);
    assert!(check(7, &tl(2), true, &context()).is_some());
}

#[test]
fn stored_candidates_are_there_themselves() {
    let mut c = CandidateController::new();
    let r = c.receive_candidate(1, &tl(2), None, &checks(77), &context(), &session());
    match r.outcome {
        IngressOutcome::Stored { raw_candidate, .. } => {
            assert!(c.book().has_real_body(&raw_candidate.id));
        }
        _ => panic!(),
    }
}

#[test]
fn unwanted_candidates_are_dropped() {
    let desc = session();
    let mut c = CandidateController::new();
    let negative = c.receive_candidate(2, &tl(-1), None, &checks(77), &context(), &desc);
    assert!(matches!(negative.outcome, IngressOutcome::Rejected));
    assert!(negative.counters.is_empty() && negative.missed.is_none());

    let far = IngressContext { too_far_ahead: true, ..context() };
    let report = c.receive_candidate(2, &tl(2), None, &checks(77), &far, &desc);
    assert_eq!(report.counters[1], IngressCounter::FutureSlotDrop);
    assert_eq!(
        report.missed,
        Some(MissedNote { slot: SlotIndex(2), id: None, reason: MissReason::TooFarAhead })
    );

    let unknown = c.receive_candidate(3, &tl(2), None, &checks(77), &context(), &desc);
    assert_eq!(unknown.counters.len(), 1);

    let old = c.receive_candidate(2, &tl(1), None, &checks(77), &context(), &desc);
    assert_eq!(old.counters[2], IngressCounter::OldSlotDrop);
    assert_eq!(
        old.missed,
        Some(MissedNote { slot: SlotIndex(1), id: None, reason: MissReason::OldSlot(SlotIndex(2)) })
    );

    let broken = IngressChecks { signature_valid: false, ..checks(77) };
    let report = c.receive_candidate(2, &tl(2), None, &broken, &context(), &desc);
    assert_eq!(
        report.missed,
        Some(MissedNote {
            slot: SlotIndex(2),
            id: None,
            reason: MissReason::Malformed(CandidateError::InvalidSignature),
        })
    );
    assert_eq!(c.book().received_count(), 0);
    assert!(!c.book().contains_seen_broadcast(SlotIndex(2)));
}

fn repair(secs: u128) -> RepairContext {
    RepairContext { now: at(secs), skip_certified: false, notarized: false }
}

#[test]
fn missing_candidates_are_asked_for() {
    let mut c = CandidateController::new();
    assert_eq!(
        c.request_candidate(SlotIndex(1), hash(1), None, &repair(10)),
        RequestDecision::RequestAt(at(11))
    );
    assert_eq!(c.next_request_time(&id(1, 1)), Some(at(13)));
    assert_eq!(
        c.request_candidate(SlotIndex(1), hash(1), None, &repair(12)),
        RequestDecision::Throttled
    );
    assert_eq!(
        c.request_candidate(SlotIndex(1), hash(1), Some(TimeSpan::zero()), &repair(13)),
        RequestDecision::RequestNow
    );
    assert_eq!(c.next_request_time(&id(1, 1)), Some(at(15)));
    assert_eq!(
        c.request_candidate(SlotIndex(1), hash(1), Some(TimeSpan::zero()), &repair(14)),
        RequestDecision::Throttled
    );
    assert!(!c.request_candidate_body_for_resolver(&id(1, 1), at(14)));
    assert!(c.request_candidate_body_for_resolver(&id(1, 1), at(15)));
    assert_eq!(
        c.request_candidate(
            SlotIndex(1), hash(1), None, &RepairContext { skip_certified: true, ..repair(16) },
        ),
        RequestDecision::Skipped
    );
    assert_eq!(c.next_request_time(&id(1, 1)), None);
}

#[test]
fn complete_candidates_are_not_asked_for() {
    let mut c = CandidateController::new();
    c.book_mut().insert_received(id(1, 1), record(1, 5, false, None));
    let ctx = RepairContext { notarized: true, ..repair(10) };
    assert_eq!(
        c.request_candidate(SlotIndex(1), hash(1), None, &ctx),
        RequestDecision::Complete
    );
    assert_eq!(
        c.request_candidate(SlotIndex(1), hash(1), None, &repair(10)),
        RequestDecision::RequestAt(at(11))
    );
    assert_eq!(
        c.delayed_request_candidate(&id(1, 1), &RepairContext { notarized: true, ..repair(11) }),
        DelayedDecision::Complete
    );
    assert!(!c.request_candidate_body_for_resolver(&id(1, 1), at(100)));
}

#[test]
fn scheduled_requests_are_looked_at_again() {
    let mut c = CandidateController::new();
    assert_eq!(c.delayed_request_candidate(&id(1, 1), &repair(11)), DelayedDecision::Cancelled);
    c.request_candidate(SlotIndex(1), hash(1), None, &repair(10));
    assert_eq!(c.delayed_request_candidate(&id(1, 1), &repair(11)), DelayedDecision::RequestNow);
    assert_eq!(c.next_request_time(&id(1, 1)), Some(at(13)));
    assert_eq!(
        c.delayed_request_candidate(
            &id(1, 1), &RepairContext { skip_certified: true, ..repair(12) },
        ),
        DelayedDecision::Skipped
    );
    assert_eq!(c.delayed_request_candidate(&id(1, 1), &repair(13)), DelayedDecision::Cancelled);
}

#[test]
fn ancestors_are_asked_for() {
    let mut c = CandidateController::new();
    c.book_mut().insert_received(id(3, 3), record(3, 5, true, Some(id(2, 2))));
    c.book_mut().insert_received(id(2, 2), ReceivedCandidate {
        parent_id: Some(id(1, 1)), ..stub(2, 4)
    });
    match c.ensure_candidate_available(&block(5), true, 0, None, at(10)) {
        EnsureOutcome::Request { ids, too_deep } => {
            assert_eq!(ids, vec![id(2, 2), id(1, 1)]);
            assert!(!too_deep);
        },
        other => panic!("unexpected {:?}", other),
    }
    assert_eq!(c.next_request_time(&id(1, 1)), Some(at(12)));
    match c.ensure_candidate_available(&block(9), false, 0, Some(id(7, 7)), at(10)) {
        EnsureOutcome::Request { ids, too_deep } => {
            assert_eq!(ids, vec![id(7, 7)]);
            assert!(!too_deep);
        },
        other => panic!("unexpected {:?}", other),
    }
    let (ids, too_deep) = c.ensure_known_candidate(id(3, 3), true, at(11));
    assert!(ids.is_empty() && !too_deep);
    let listed = c.book().iter_received();
    assert_eq!(listed.len(), c.book().received_ids().len());
    assert!(listed.iter().all(|(id, r)| r.slot == id.slot));
}

#[test]
fn unknown_blocks_are_looked_up_a_few_times() {
    let mut c = CandidateController::new();
    match c.ensure_candidate_available(&block(9), true, 5, None, at(10)) {
        EnsureOutcome::Retry { at: time, attempt } => {
            assert_eq!(time.nanos, (10 * SEC + SEC / 2) as i128);
            assert_eq!(attempt, 6);
        },
        other => panic!("unexpected {:?}", other),
    }
    assert!(matches!(
        c.ensure_candidate_available(&block(9), true, 6, None, at(10)),
        EnsureOutcome::GaveUp
    ));
}

#[test]
fn requests_are_forgotten() {
    let mut c = CandidateController::new();
    c.request_candidate(SlotIndex(1), hash(1), None, &repair(10));
    c.request_candidate(SlotIndex(1), hash(2), None, &repair(10));
    c.request_candidate(SlotIndex(2), hash(3), None, &repair(10));
    c.request_candidate(SlotIndex(4), hash(4), None, &repair(10));
    assert_eq!(c.cancel_repairs_for_slot(SlotIndex(1)), 2);
    assert_eq!(c.cancel_repairs_for_slot(SlotIndex(1)), 0);
    c.prune_requested_below(SlotIndex(3));
    assert_eq!(c.next_request_time(&id(2, 3)), None);
    assert_eq!(c.next_request_time(&id(4, 4)), Some(at(13)));
}

#[test]
fn queries_are_answered() {
    let mut c = CandidateController::new();
    let (answer, notar) =
        c.serve_query_fallback(SlotIndex(1), hash(1), false, true, None, None, vec![8]);
    assert!(matches!(answer, CandidateAnswer::Nothing));
    assert_eq!(notar, vec![8]);

    let (answer, notar) =
        c.serve_query_fallback(SlotIndex(1), hash(1), true, false, Some(vec![6]), None, vec![8]);
    assert!(matches!(answer, CandidateAnswer::Bytes(b) if b == vec![6]));
    assert!(notar.is_empty());

    c.book_mut().insert_received(id(1, 1), record(1, 5, true, Some(id(0, 9))));
    let info = || StoredCandidateInfo {
        hash_data: CandidateHashInput::Empty { block: block(3), parent: id(0, 9) },
        signature: vec![7],
    };
    let (answer, _) = c.serve_query_fallback(
        SlotIndex(1), hash(1), true, false, Some(vec![]), Some(info()), vec![],
    );
    match answer {
        CandidateAnswer::Rebuilt(CandidateData::Empty { slot, parent, block: b, signature }) => {
            assert_eq!(slot, 1);
            assert_eq!(parent, WireCandidateId { slot: 0, hash: hash(9) });
            assert_eq!(b, block(5));
            assert_eq!(signature, vec![7]);
        },
        other => panic!("unexpected {:?}", other),
    }
    match c.reconstruct_empty_candidate_data_from_info(&id(2, 2), &info()) {
        Err(e) => assert_eq!(e, RebuildError::UnknownBlock),
        Ok(tl) => panic!("rebuilt {:?}", tl),
    }
    let ordinary = StoredCandidateInfo {
        hash_data: CandidateHashInput::Ordinary {
            block: Some(block(5)), collated_file_hash: None, parent: None,
        },
        signature: vec![],
    };
    match c.reconstruct_empty_candidate_data_from_info(&id(1, 1), &ordinary) {
        Err(e) => assert_eq!(e, RebuildError::NotEmpty),
        Ok(tl) => panic!("rebuilt {:?}", tl),
    }
    c.book_mut().insert_cached_data(id(1, 1), vec![5]);
    let (answer, _) =
        c.serve_query_fallback(SlotIndex(1), hash(1), true, false, Some(vec![6]), None, vec![]);
    assert!(matches!(answer, CandidateAnswer::Bytes(b) if b == vec![5]));
}
