//! Candidates, how they travel, and how they are resolved.

use simplex::block::{
    CandidateHashInput, CandidateId, RawCandidateId, SlotIndex, ValidatorIndex,
};
use simplex::candidate::{
    BlockCandidate, BlockInfo, BlockInfoOutcome, Candidate, CandidateBlockData, CandidateData,
    CandidateError, CandidateParts, RawCandidate, WireCandidateId,
};
use simplex::chain::{BlockIdExt, ShardIdent, UInt256, SHARD_FULL};

fn hash(first: u64) -> UInt256 {
    UInt256 { w0: first, w1: 0, w2: 0, w3: 7 }
}

fn block(seq_no: u32) -> BlockIdExt {
    BlockIdExt {
        shard_id: ShardIdent { workchain_id: 0, prefix: SHARD_FULL },
        seq_no,
        root_hash: hash(100),
        file_hash: hash(101),
    }
}

fn raw_id(slot: u32, first: u64) -> RawCandidateId {
    RawCandidateId::from_parts(SlotIndex(slot), hash(first))
}

fn body(seq_no: u32) -> BlockCandidate {
    BlockCandidate {
        id: block(seq_no),
        collated_file_hash: hash(102),
        data: vec![1, 2, 3],
        collated_data: vec![4, 5],
        creator: hash(55),
    }
}

fn info(seq_no: u32) -> BlockInfoOutcome {
    BlockInfoOutcome::Present(BlockInfo {
        block_id: block(seq_no),
        collated_file_hash: hash(102),
        data: vec![1, 2, 3],
        collated_data: vec![4, 5],
    })
}

fn ordinary(slot: i32, bytes: Vec<u8>, parent: Option<WireCandidateId>) -> CandidateData {
    CandidateData::Block { slot, candidate: bytes, parent, signature: vec![9, 9] }
}

fn empty(slot: i32, parent_slot: i32) -> CandidateData {
    CandidateData::Empty {
        slot,
        parent: WireCandidateId { slot: parent_slot, hash: hash(1) },
        block: block(4),
        signature: vec![8],
    }
}

fn refusal(r: Result<RawCandidate, CandidateError>) -> CandidateError {
    match r {
        Err(e) => e,
        Ok(c) => panic!("accepted {:?}", c),
    }
}

#[test]
fn block_data_tells_its_kind() {
    let own = CandidateBlockData::NonEmpty(body(5));
    assert!(!own.is_empty());
    assert_eq!(*own.block_id(), block(5));
    assert_eq!(own.as_block().map(|b| b.id), Some(block(5)));
    assert!(own.as_empty().is_none());
    let none = CandidateBlockData::Empty(block(4));
    assert!(none.is_empty());
    assert_eq!(*none.block_id(), block(4));
    assert!(none.as_block().is_none());
    assert_eq!(none.as_empty(), Some(&block(4)));
    assert_eq!(*none.duplicate().block_id(), block(4));
    let copy = own.duplicate();
    assert_eq!(copy.as_block().map(|b| b.data.clone()), Some(vec![1, 2, 3]));
    assert_eq!(body(5).duplicate().collated_data, vec![4, 5]);
}

#[test]
fn travelling_candidates_show_their_parts() {
    let parent = WireCandidateId { slot: 2, hash: hash(1) };
    let own = ordinary(3, vec![1], Some(parent));
    assert_eq!(own.slot(), 3);
    assert_eq!(own.parent(), Some(parent));
    assert_eq!(*own.signature(), vec![9, 9]);
    let none = empty(3, 2);
    assert_eq!(none.slot(), 3);
    assert_eq!(none.parent(), Some(parent));
    assert_eq!(*none.duplicate().signature(), vec![8]);
    assert_eq!(ordinary(3, vec![1], None).parent(), None);
}

#[test]
fn wire_identifiers_are_signed() {
    let id = raw_id(u32::MAX, 3);
    let wire = WireCandidateId::encode(&id);
    assert_eq!(wire.slot, -1);
    assert_eq!(wire.decode(), id);
    assert_eq!(WireCandidateId::encode(&raw_id(6, 3)).slot, 6);
}

#[test]
fn ordinary_candidates_arrive() {
    let parent = WireCandidateId { slot: 2, hash: hash(1) };
    let tl = ordinary(3, vec![1], Some(parent));
    let c = RawCandidate::from_tl(&tl, &info(5), ValidatorIndex(1), hash(55), hash(77), true).unwrap();
    assert_eq!(c.id, raw_id(3, 77));
    assert_eq!(c.parent_id, Some(raw_id(2, 1)));
    assert_eq!(c.leader, ValidatorIndex(1));
    assert!(!c.is_empty());
    assert_eq!(c.signature, vec![9, 9]);
    let own = c.block.as_block().unwrap();
    assert_eq!(own.id, block(5));
    assert_eq!(own.creator, hash(55));
    assert_eq!(own.data, vec![1, 2, 3]);
    assert_eq!(own.collated_data, vec![4, 5]);
    assert_eq!(own.collated_file_hash, hash(102));
}

#[test]
fn empty_candidates_arrive() {
    let tl = empty(3, 2);
    let c = RawCandidate::from_tl(
        &tl, &BlockInfoOutcome::Absent, ValidatorIndex(1), hash(55), hash(77), true,
    ).unwrap();
    assert!(c.is_empty());
    assert_eq!(c.parent_id, Some(raw_id(2, 1)));
    assert_eq!(*c.block.block_id(), block(4));
}

#[test]
fn faulty_candidates_are_refused() {
    let who = ValidatorIndex(1);
    let negative_parent = WireCandidateId { slot: -5, hash: hash(1) };
    let from = |tl: &CandidateData, i: &BlockInfoOutcome, ok: bool| {
        refusal(RawCandidate::from_tl(tl, i, who, hash(55), hash(77), ok))
    };
    assert_eq!(
        from(&ordinary(3, vec![1], Some(negative_parent)), &info(5), true),
        CandidateError::NegativeParentSlot(-5)
    );
    assert_eq!(from(&empty(3, -2), &info(5), true), CandidateError::NegativeParentSlot(-2));
    assert_eq!(from(&ordinary(3, vec![], None), &info(5), true), CandidateError::EmptyCandidateBytes);
    assert_eq!(
        from(&ordinary(3, vec![1], None), &BlockInfoOutcome::Unreadable, true),
        CandidateError::UnreadableBlock
    );
    assert_eq!(
        from(&ordinary(3, vec![1], None), &BlockInfoOutcome::Absent, true),
        CandidateError::MissingBlockInfo
    );
    assert_eq!(from(&ordinary(-3, vec![1], None), &info(5), true), CandidateError::NegativeSlot(-3));
    assert_eq!(from(&ordinary(3, vec![1], None), &info(5), false), CandidateError::InvalidSignature);
    assert_eq!(
        from(&ordinary(-3, vec![], Some(negative_parent)), &BlockInfoOutcome::Absent, false),
        CandidateError::NegativeParentSlot(-5)
    );
}

#[test]
fn hash_inputs_follow_the_parts() {
    let parts = RawCandidate::prepare(&ordinary(3, vec![1], None), &info(5), hash(55)).unwrap();
    assert_eq!(parts.slot, SlotIndex(3));
    assert_eq!(
        parts.hash_input(),
        CandidateHashInput::Ordinary {
            block: Some(block(5)),
            collated_file_hash: Some(hash(102)),
            parent: None,
        }
    );
    let parts = RawCandidate::prepare(&empty(3, 2), &BlockInfoOutcome::Absent, hash(55)).unwrap();
    assert_eq!(
        parts.hash_input(),
        CandidateHashInput::Empty { block: block(4), parent: raw_id(2, 1) }
    );
    let direct = CandidateParts {
        slot: SlotIndex(1),
        parent_id: Some(raw_id(0, 1)),
        block: CandidateBlockData::NonEmpty(body(2)),
    };
    assert_eq!(
        direct.hash_input(),
        CandidateHashInput::Ordinary {
            block: Some(block(2)),
            collated_file_hash: Some(hash(102)),
            parent: Some(raw_id(0, 1)),
        }
    );
}

#[test]
fn candidates_travel_and_come_back() {
    let c = RawCandidate::new(raw_id(3, 77), Some(raw_id(2, 1)), ValidatorIndex(1), body(5), vec![6]);
    let tl = c.serialize(vec![1, 1]).unwrap();
    assert_eq!(tl.slot(), 3);
    assert_eq!(tl.parent(), Some(WireCandidateId { slot: 2, hash: hash(1) }));
    let back =
        RawCandidate::from_tl(&tl, &info(5), ValidatorIndex(1), hash(55), hash(77), true).unwrap();
    assert_eq!(back.id, c.id);
    assert_eq!(back.parent_id, c.parent_id);
    assert_eq!(back.signature, c.signature);
    assert_eq!(back.block.as_block().unwrap().data, body(5).data);

    let e = RawCandidate::new_empty(raw_id(3, 78), raw_id(2, 1), ValidatorIndex(1), block(4), vec![6]);
    let tl = e.serialize(vec![]).unwrap();
    let back = RawCandidate::from_tl(
        &tl, &BlockInfoOutcome::Unreadable, ValidatorIndex(1), hash(55), hash(78), true,
    ).unwrap();
    assert!(back.is_empty());
    assert_eq!(back.id, e.id);
    assert_eq!(back.parent_id, e.parent_id);
    assert_eq!(*back.block.block_id(), block(4));
}

#[test]
fn empty_candidates_need_a_parent_to_travel() {
    let broken = RawCandidate {
        id: raw_id(3, 77),
        parent_id: None,
        leader: ValidatorIndex(0),
        block: CandidateBlockData::Empty(block(4)),
        signature: vec![],
    };
    match broken.serialize(vec![1]) {
        Err(e) => assert_eq!(e, CandidateError::EmptyWithoutParent),
        Ok(tl) => panic!("travels as {:?}", tl),
    }
}

#[test]
fn candidates_are_signed() {
    let c = RawCandidate::create_and_sign(
        SlotIndex(3), body(5), None, ValidatorIndex(2), hash(77), Some(vec![1]),
    ).unwrap();
    assert_eq!(c.id, raw_id(3, 77));
    assert_eq!(c.signature, vec![1]);
    assert!(RawCandidate::create_and_sign(
        SlotIndex(3), body(5), None, ValidatorIndex(2), hash(77), None,
    ).is_none());
    let e = RawCandidate::create_empty_and_sign(
        SlotIndex(3), raw_id(2, 1), block(4), ValidatorIndex(2), hash(77), Some(vec![1]),
    ).unwrap();
    assert!(e.is_empty());
    assert_eq!(e.leader, ValidatorIndex(2));
    assert!(RawCandidate::create_empty_and_sign(
        SlotIndex(3), raw_id(2, 1), block(4), ValidatorIndex(2), hash(77), None,
    ).is_none());
}

#[test]
fn candidates_are_resolved() {
    let raw = RawCandidate::new(raw_id(3, 77), Some(raw_id(2, 1)), ValidatorIndex(1), body(5), vec![6]);
    let c = raw.resolve(None);
    assert_eq!(c.id, CandidateId::from_raw(&raw_id(3, 77), block(5)));
    assert_eq!(c.parent_id, Some(CandidateId::from_raw(&raw_id(2, 1), BlockIdExt::default())));
    assert!(!c.is_empty());
    let back = c.to_raw();
    assert_eq!(back.id, raw.id);
    assert_eq!(back.parent_id, raw.parent_id);
    assert_eq!(*back.block.block_id(), block(5));

    let parent = CandidateId::from_raw(&raw_id(1, 9), block(2));
    assert_eq!(raw.resolve(Some(&parent)).parent_id, Some(parent));

    let e = RawCandidate::new_empty(raw_id(3, 78), raw_id(2, 1), ValidatorIndex(1), block(4), vec![6]);
    let c = e.resolve(None);
    assert!(c.is_empty());
    assert_eq!(c.id.block, block(4));
    assert!(c.to_raw().is_empty());
}

#[test]
fn resolved_candidates_come_back() {
    let parent = CandidateId::from_raw(&raw_id(2, 1), block(4));
    let c = Candidate::new(
        CandidateId::from_raw(&raw_id(3, 77), block(5)), Some(parent), ValidatorIndex(1),
        Some(body(5)), vec![6],
    );
    let back = c.to_raw().resolve(Some(&parent));
    assert_eq!(back.id, c.id);
    assert_eq!(back.parent_id, c.parent_id);
    assert_eq!(back.signature, c.signature);
    assert_eq!(back.block.map(|b| b.id), Some(block(5)));
}

#[test]
fn placeholder_block_stands_before_all_others() {
    let placeholder = BlockIdExt::default();
    assert_eq!(placeholder.seq_no, 0);
    assert_eq!(placeholder.root_hash, UInt256::zero());
    assert_eq!(placeholder.file_hash, UInt256::zero());
    assert_eq!(placeholder.shard_id, ShardIdent::default());
}
