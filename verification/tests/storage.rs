//! Stored records, loading them, and waiting for writes.

use simplex::block::{CandidateHashInput, RawCandidateId, SlotIndex, ValidatorIndex, WindowIndex};
use simplex::candidate::WireCandidateId;
use simplex::certificate::{Certificate, VoteSignature};
use simplex::chain::{BlockIdExt, ShardIdent, UInt256, SHARD_FULL};
use simplex::database::{
    filter_finalized_chain, keep_readable, Bootstrap, CandidateInfoRecord, FinalCertRecord,
    FinalizedBlockRecord, LoadError, NotarCertRecord, PoolStateRecord, SimplexDb, SkipCertRecord,
    StoredEntries, StoredVote, VoteRecord, VoteStorageEntry,
};
use simplex::database_controller::{
    DatabaseController, DurabilityError, DurabilityWaitKind, PendingDrainStep, WriteError,
};
use simplex::time::{TimePoint, TimeSpan};
use simplex::votes::{FinalizeVote, NotarizeVote, SkipVote, UnsignedVote, Vote};

fn hash(first: u64) -> UInt256 {
    UInt256 { w0: first, w1: 0, w2: 0, w3: 0 }
}

fn block(seq_no: u32) -> BlockIdExt {
    BlockIdExt {
        shard_id: ShardIdent { workchain_id: 0, prefix: SHARD_FULL },
        seq_no,
        root_hash: hash(100),
        file_hash: hash(101),
    }
}

fn id(slot: u32) -> RawCandidateId {
    RawCandidateId::from_parts(SlotIndex(slot), hash(slot as u64))
}

fn finalized(slot: u32, parent: Option<u32>) -> FinalizedBlockRecord {
    FinalizedBlockRecord {
        candidate_id: id(slot),
        block_id: block(slot),
        parent: parent.map(id),
        is_final: slot % 2 == 0,
    }
}

fn vote(seqno: i64) -> VoteRecord {
    VoteRecord { vote_hash: hash(seqno as u64), data: vec![1], node_idx: ValidatorIndex(3), seqno }
}

fn nothing() -> StoredEntries {
    StoredEntries {
        finalized_blocks: vec![],
        candidate_infos: vec![],
        notar_certs: vec![],
        final_certs: vec![],
        skip_certs: vec![],
        votes: vec![],
        pool_state: vec![],
        candidate_payloads: vec![],
    }
}

fn load(entries: StoredEntries) -> Bootstrap {
    SimplexDb::open().load_bootstrap(entries).unwrap()
}

#[test]
fn records_are_read_back() {
    let record = finalized(5, Some(4));
    let (key, value) = SimplexDb::open().save_finalized_block_async(&record);
    assert_eq!(key, WireCandidateId { slot: 5, hash: hash(5) });
    assert_eq!(FinalizedBlockRecord::from_stored(&key, &value), record);
    let first = finalized(u32::MAX, None);
    let (key, value) = first.to_stored();
    assert_eq!(key.slot, -1);
    assert_eq!(FinalizedBlockRecord::from_stored(&key, &value), first);

    let state = PoolStateRecord { first_nonannounced_window: WindowIndex(8) };
    assert_eq!(SimplexDb::open().save_pool_state_async(&state), 8);
    assert_eq!(PoolStateRecord::from_stored(8), state);
    assert_eq!(state.to_stored(), 8);
    assert_eq!(PoolStateRecord::default().first_nonannounced_window, WindowIndex(0));
}

#[test]
fn candidate_infos_are_read_back() {
    let record = || CandidateInfoRecord {
        candidate_id: id(5),
        leader_idx: u32::MAX,
        candidate_hash_data: CandidateHashInput::Empty { block: block(4), parent: id(4) },
        signature: vec![1, 2],
    };
    let (key, value) = SimplexDb::open().save_candidate_info_async(record());
    assert_eq!(value.leader_id, -1);
    let back = CandidateInfoRecord::from_stored(&key, value);
    assert_eq!(back.candidate_id, id(5));
    assert_eq!(back.leader_idx, u32::MAX);
    assert_eq!(back.candidate_hash_data, record().candidate_hash_data);
    assert_eq!(back.signature, vec![1, 2]);
    assert_eq!(record().to_stored().0, WireCandidateId { slot: 5, hash: hash(5) });
    let db = SimplexDb::open();
    assert!(db.load_candidate_info_by_id(&id(5), None).is_none());
    let found = db.load_candidate_info_by_id(&id(5), Some(record().to_stored().1)).unwrap();
    assert_eq!(found.candidate_id, id(5));
    assert_eq!(found.leader_idx, u32::MAX);
    let (key, bytes) = SimplexDb::open().save_candidate_payload_async(&id(6), vec![7]);
    assert_eq!(key, WireCandidateId { slot: 6, hash: hash(6) });
    assert_eq!(bytes, vec![7]);
}

#[test]
fn votes_get_numbers() {
    let mut db = SimplexDb::open();
    let (key, value) = db.save_vote_async(vote(77));
    assert_eq!(key, hash(77));
    match VoteStorageEntry::from_stored(&key, value) {
        VoteStorageEntry::Vote(v) => {
            assert_eq!(v.seqno, 0);
            assert_eq!(v.node_idx, ValidatorIndex(3));
            assert_eq!(v.data, vec![1]);
        },
        other => panic!("unexpected {:?}", other),
    }
    assert_eq!(db.next_vote_seqno, 1);
    let mut last = SimplexDb { next_vote_seqno: i64::MAX };
    last.save_vote_async(vote(1));
    assert_eq!(last.next_vote_seqno, i64::MIN);
}

#[test]
fn certificates_are_written() {
    let db = SimplexDb::open();
    let sigs = || vec![VoteSignature::new(ValidatorIndex(2), vec![9])];
    let notar = Certificate::new(NotarizeVote { slot: SlotIndex(5), block_hash: hash(5) }, sigs());
    let (v, s) = db.save_notar_cert_async(&notar);
    assert_eq!(v, UnsignedVote::Notarize(WireCandidateId { slot: 5, hash: hash(5) }));
    assert_eq!((s[0].who, s[0].signature.clone()), (2, vec![9]));
    let fin = Certificate::new(FinalizeVote { slot: SlotIndex(5), block_hash: hash(5) }, sigs());
    assert_eq!(
        db.save_final_cert_async(&fin).0,
        UnsignedVote::Finalize(WireCandidateId { slot: 5, hash: hash(5) })
    );
    let skip = Certificate::new(SkipVote { slot: SlotIndex(5) }, sigs());
    assert_eq!(db.save_skip_cert_async(&skip).0, UnsignedVote::Skip(5));
}

fn cert(v: Vote) -> VoteStorageEntry {
    VoteStorageEntry::from_stored(&hash(1), StoredVote::Certificate {
        vote: v, cert_bytes: vec![1], signature_bytes: vec![2],
    })
}

fn notar_entry(slot: u32) -> VoteStorageEntry {
    cert(Vote::Notarize(NotarizeVote { slot: SlotIndex(slot), block_hash: hash(slot as u64) }))
}

fn final_entry(slot: u32) -> VoteStorageEntry {
    cert(Vote::Finalize(FinalizeVote { slot: SlotIndex(slot), block_hash: hash(slot as u64) }))
}

fn skip_entry(slot: u32) -> VoteStorageEntry {
    cert(Vote::Skip(SkipVote { slot: SlotIndex(slot) }))
}

#[test]
fn certificates_are_told_apart() {
    match notar_entry(5) {
        VoteStorageEntry::NotarCert(NotarCertRecord { candidate_id, notar_cert_bytes }) => {
            assert_eq!(candidate_id, id(5));
            assert_eq!(notar_cert_bytes, vec![2]);
        },
        other => panic!("unexpected {:?}", other),
    }
    match final_entry(5) {
        VoteStorageEntry::FinalCert(FinalCertRecord { candidate_id, cert_bytes }) => {
            assert_eq!(candidate_id, id(5));
            assert_eq!(cert_bytes, vec![1]);
        },
        other => panic!("unexpected {:?}", other),
    }
    match skip_entry(5) {
        VoteStorageEntry::SkipCert(SkipCertRecord { slot, cert_bytes }) => {
            assert_eq!(slot, SlotIndex(5));
            assert_eq!(cert_bytes, vec![1]);
        },
        other => panic!("unexpected {:?}", other),
    }
}

#[test]
fn certificates_are_loaded_by_slot() {
    let db = SimplexDb::open();
    let mixed = || vec![
        Some(notar_entry(7)), None, Some(skip_entry(6)), Some(notar_entry(3)),
        Some(VoteStorageEntry::Vote(vote(1))), Some(final_entry(4)), Some(final_entry(2)),
        Some(skip_entry(1)),
    ];
    let notar: Vec<RawCandidateId> =
        db.load_notar_certs(mixed()).iter().map(|r| r.candidate_id).collect();
    assert_eq!(notar, vec![id(3), id(7)]);
    let fin: Vec<RawCandidateId> =
        db.load_final_certs(mixed()).iter().map(|r| r.candidate_id).collect();
    assert_eq!(fin, vec![id(2), id(4)]);
    let skip: Vec<SlotIndex> = db.load_skip_certs(mixed()).iter().map(|r| r.slot).collect();
    assert_eq!(skip, vec![SlotIndex(1), SlotIndex(6)]);
    assert!(db.load_notar_cert_by_id(mixed(), &id(7)).is_some());
    assert!(db.load_notar_cert_by_id(mixed(), &id(4)).is_none());
    assert_eq!(db.load_final_cert_by_id(mixed(), &id(4)).map(|r| r.candidate_id), Some(id(4)));
    assert!(db.load_final_cert_by_id(mixed(), &id(7)).is_none());
    assert_eq!(
        db.load_skip_cert_by_slot(mixed(), SlotIndex(6)).map(|r| r.slot),
        Some(SlotIndex(6))
    );
    assert!(db.load_skip_cert_by_slot(mixed(), SlotIndex(7)).is_none());
}

#[test]
fn finalized_blocks_form_a_chain() {
    let records = vec![
        finalized(1, None), finalized(2, Some(1)), finalized(3, Some(9)), finalized(4, None),
        finalized(5, Some(2)),
    ];
    let kept: Vec<RawCandidateId> =
        filter_finalized_chain(records).iter().map(|r| r.candidate_id).collect();
    assert_eq!(kept, vec![id(1), id(2), id(5)]);
    assert!(filter_finalized_chain(vec![finalized(2, Some(1))]).is_empty());
    let loaded = SimplexDb::open().load_finalized_blocks(vec![
        Some(finalized(5, Some(2))), None, Some(finalized(2, None)),
    ]);
    assert_eq!(loaded.len(), 2);
    assert_eq!(loaded[0].candidate_id, id(2));
}

#[test]
fn new_votes_come_last() {
    let mut db = SimplexDb::open();
    let votes = db.load_votes(vec![
        Some(VoteStorageEntry::Vote(vote(8))), Some(notar_entry(1)), None,
        Some(VoteStorageEntry::Vote(vote(3))),
    ]).unwrap();
    assert_eq!(votes.iter().map(|v| v.seqno).collect::<Vec<i64>>(), vec![3, 8]);
    assert_eq!(db.next_vote_seqno, 9);
    let mut full = SimplexDb::open();
    assert_eq!(
        full.load_votes(vec![Some(VoteStorageEntry::Vote(vote(i64::MAX)))]).map(|_| ()).unwrap_err(),
        LoadError::VoteNumbersUsedUp
    );
    let mut untouched = SimplexDb { next_vote_seqno: 4 };
    assert!(untouched.load_votes(vec![]).unwrap().is_empty());
    assert_eq!(untouched.next_vote_seqno, 4);
}

#[test]
fn pool_state_is_the_first_one() {
    let db = SimplexDb::open();
    let state = PoolStateRecord { first_nonannounced_window: WindowIndex(8) };
    assert_eq!(db.load_pool_state(&vec![]), Ok(None));
    assert_eq!(db.load_pool_state(&vec![Some(state), None]), Ok(Some(state)));
    assert_eq!(
        db.load_pool_state(&vec![None, Some(state)]),
        Err(LoadError::UnreadablePoolState)
    );
}

#[test]
fn sessions_start_from_what_is_stored() {
    assert!(load(nothing()).is_empty());
    let state = PoolStateRecord { first_nonannounced_window: WindowIndex(8) };
    let full = || StoredEntries {
        finalized_blocks: vec![Some(finalized(1, None))],
        votes: vec![Some(VoteStorageEntry::Vote(vote(3)))],
        skip_certs: vec![Some(skip_entry(4))],
        pool_state: vec![Some(state)],
        candidate_payloads: vec![None, Some((id(1), vec![5]))],
        ..nothing()
    };
    let b = load(full());
    assert!(!b.is_empty());
    assert_eq!(b.pool_state, Some(state));
    let (session, receiver, payloads) = b.split();
    assert_eq!(session.finalized_blocks.len(), 1);
    assert_eq!(session.votes.len(), 1);
    assert_eq!(session.pool_state, Some(state));
    assert_eq!(receiver.skip_certs.len(), 1);
    assert_eq!(payloads, vec![(id(1), vec![5])]);

    let broken = || StoredEntries { pool_state: vec![None], ..full() };
    assert_eq!(
        SimplexDb::open().load_bootstrap(broken()).map(|_| ()).unwrap_err(),
        LoadError::UnreadablePoolState
    );
    let b = SimplexDb::open().load_bootstrap_cancellable(Some(broken())).unwrap();
    assert_eq!(b.pool_state, None);
    assert_eq!(
        SimplexDb::open().load_bootstrap_cancellable(None).map(|_| ()).unwrap_err(),
        LoadError::Cancelled
    );
}

#[test]
fn unreadable_entries_are_left_out() {
    assert_eq!(keep_readable(vec![Some(1u8), None, Some(3)]), vec![1, 3]);
    assert!(SimplexDb::open().load_candidate_infos(vec![None]).is_empty());
}

type Controller = DatabaseController<u32, &'static str>;

#[test]
fn writes_are_remembered() {
    let mut c: Controller = DatabaseController::new(WindowIndex(3));
    assert_eq!(c.first_nonannounced_window(), WindowIndex(3));
    c.set_first_nonannounced_window(WindowIndex(4));
    assert_eq!(c.first_nonannounced_window(), WindowIndex(4));
    assert_eq!(c.insert_candidate_info_store(id(1), 10), None);
    assert_eq!(c.insert_candidate_info_store(id(1), 11), Some(10));
    assert_eq!(c.candidate_info_store_result(&id(1)), Some(&11));
    assert_eq!(c.remove_candidate_info_store(&id(1)), Some(11));
    assert!(!c.contains_candidate_info_store(&id(1)));
    c.insert_notar_cert_store(id(2), 12);
    assert_eq!(c.notar_cert_store_result(&id(2)), Some(&12));
    assert_eq!(c.remove_notar_cert_store(&id(2)), Some(12));
    c.insert_final_cert_store(id(2), 13);
    assert_eq!(c.final_cert_store_result(&id(2)), Some(&13));
    assert!(c.contains_final_cert_store(&id(2)));
    assert_eq!(c.remove_final_cert_store(&id(2)), Some(13));
    c.insert_skip_cert_store(SlotIndex(2), 14);
    assert_eq!(c.skip_cert_store_result(SlotIndex(2)), Some(&14));
    assert!(c.contains_skip_cert_store(SlotIndex(2)));
    assert_eq!(c.remove_skip_cert_store(SlotIndex(2)), Some(14));
    assert_eq!(c.remove_skip_cert_store(SlotIndex(2)), None);
}

#[test]
fn writes_of_old_slots_are_dropped() {
    let mut c: Controller = DatabaseController::new(WindowIndex(0));
    for slot in [1u32, 5] {
        c.insert_candidate_info_store(id(slot), slot);
        c.insert_notar_cert_store(id(slot), slot);
        c.insert_final_cert_store(id(slot), slot);
        c.insert_skip_cert_store(SlotIndex(slot), slot);
    }
    c.prune_below(SlotIndex(2));
    c.prune_below(SlotIndex(5));
    assert!(!c.contains_candidate_info_store(&id(1)) && c.contains_candidate_info_store(&id(5)));
    assert!(!c.contains_notar_cert_store(&id(1)) && c.contains_notar_cert_store(&id(5)));
    assert!(!c.contains_final_cert_store(&id(1)) && c.contains_final_cert_store(&id(5)));
    assert!(!c.contains_skip_cert_store(SlotIndex(1)) && c.contains_skip_cert_store(SlotIndex(5)));
}

#[test]
fn candidate_infos_are_stored_once() {
    let mut c: Controller = DatabaseController::new(WindowIndex(0));
    let data = CandidateHashInput::Empty { block: block(1), parent: id(0) };
    let who = ValidatorIndex(2);
    assert!(!c.save_candidate_info_to_db(SlotIndex(1), &hash(1), who, None, vec![], |_| Some(1)));
    assert!(!c.contains_candidate_info_store(&id(1)));
    assert!(c.save_candidate_info_to_db(SlotIndex(1), &hash(1), who, Some(data), vec![], |_| None));
    assert!(!c.contains_candidate_info_store(&id(1)));
    assert!(!c.save_candidate_info_to_db(
        SlotIndex(1), &hash(1), who, Some(data), vec![6], |record| {
            assert_eq!(record.candidate_id, id(1));
            assert_eq!(record.leader_idx, 2);
            assert_eq!(record.signature, vec![6]);
            Some(7)
        },
    ));
    assert_eq!(c.candidate_info_store_result(&id(1)), Some(&7));
    assert!(!c.save_candidate_info_to_db(
        SlotIndex(1), &hash(1), who, Some(data), vec![], |_| panic!("stored twice"),
    ));
}

#[test]
fn continuations_are_handed_out_once() {
    let mut c: Controller = DatabaseController::new(WindowIndex(0));
    let now = TimePoint { nanos: 100 };
    let wait = TimeSpan { nanos: 50 };
    assert!(c.pending_is_empty());
    assert_eq!(c.register_pending("a", 1, "first", now, wait), 0);
    assert_eq!(c.register_pending("b", 2, "second", now, wait), 1);
    assert_eq!(c.register_pending("c", 3, "third", now, wait), 2);
    assert_eq!(c.pending_count(), 3);
    assert_eq!(c.pending_result(1), Some(&2));
    assert_eq!(c.pending_result(3), None);
    let later = TimePoint { nanos: 149 };
    assert!(matches!(
        c.step_pending_drain::<()>(0, later, None),
        PendingDrainStep::Pending
    ));
    match c.step_pending_drain(0, later, Some(Err("lost"))) {
        PendingDrainStep::Ready { entry, result } => {
            assert_eq!(entry.on_ready, "first");
            assert_eq!(entry.op_label, "a");
            assert_eq!(entry.registered_at, now);
            assert_eq!(result, Err("lost"));
        },
        other => panic!("unexpected {:?}", other),
    }
    match c.step_pending_drain::<()>(0, TimePoint { nanos: 150 }, None) {
        PendingDrainStep::TimedOut { entry } => assert_eq!(entry.on_ready, "third"),
        other => panic!("unexpected {:?}", other),
    }
    assert!(matches!(c.step_pending_drain::<()>(1, later, None), PendingDrainStep::Done));
    assert_eq!(c.pending_count(), 1);
    assert_eq!(c.pending_result(0), Some(&2));
}

#[test]
fn failed_writes_are_forgotten() {
    let mut c: Controller = DatabaseController::new(WindowIndex(0));
    c.insert_candidate_info_store(id(1), 1);
    c.insert_notar_cert_store(id(1), 2);
    let info = DurabilityWaitKind::CandidateInfo;
    let notar = DurabilityWaitKind::NotarCert;
    assert!(c.classify_durability_wait_outcome::<&str>(None, info, &id(9)).is_ok());
    assert!(c.classify_durability_wait_outcome::<&str>(Some(Ok(())), info, &id(1)).is_ok());
    assert!(c
        .classify_durability_wait_outcome::<&str>(Some(Err(WriteError::AlreadyTaken)), info, &id(1))
        .is_ok());
    assert!(matches!(
        c.classify_durability_wait_outcome(Some(Err(WriteError::Storage("disk"))), info, &id(1)),
        Err(DurabilityError::Storage("disk"))
    ));
    assert!(!c.contains_candidate_info_store(&id(1)) && c.contains_notar_cert_store(&id(1)));
    assert!(matches!(
        c.classify_durability_wait_outcome::<&str>(Some(Err(WriteError::AlreadyTaken)), info, &id(1)),
        Err(DurabilityError::TakenAfterFailure)
    ));
    assert!(matches!(
        c.classify_durability_wait_outcome(Some(Err(WriteError::Storage(1))), notar, &id(1)),
        Err(DurabilityError::Storage(1))
    ));
    assert!(!c.contains_notar_cert_store(&id(1)));
}
