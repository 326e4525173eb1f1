//! Slots, windows, validators, identifiers and their textual forms.

use simplex::block::{
    CandidateHashInput, CandidateId, CandidateParentInfo, RawCandidateId, SlotIndex, ValidatorIndex,
    WindowIndex,
};
use simplex::candidate::BlockCandidate;
use simplex::chain::{BlockIdExt, ShardIdent, UInt256, MASTERCHAIN_ID, SHARD_FULL};
use simplex::order::sort_by_rank;
use simplex::text::{decimal_text, decimal_text_padded, short_hash};

fn hash(first: u64) -> UInt256 {
    UInt256 { w0: first, w1: 2, w2: 3, w3: 4 }
}

fn block(seq_no: u32) -> BlockIdExt {
    BlockIdExt {
        shard_id: ShardIdent { workchain_id: 0, prefix: SHARD_FULL },
        seq_no,
        root_hash: hash(10),
        file_hash: hash(11),
    }
}

#[test]
fn slots_fall_in_windows() {
    let slot = SlotIndex::new(11);
    assert_eq!(slot.value(), 11);
    assert_eq!(slot.window_index(4), WindowIndex(2));
    assert_eq!(slot.offset_in_window(4), 3);
    assert!(!slot.is_first_in_window(4));
    assert!(slot.is_last_in_window(4));
    assert_eq!(slot.window_start(4), SlotIndex(8));
    assert!(SlotIndex(8).is_first_in_window(4));
    assert!(SlotIndex(7).is_first_in_window(1));
    assert!(SlotIndex(7).is_last_in_window(1));
    assert_eq!(SlotIndex(u32::MAX).window_start(u32::MAX), SlotIndex(u32::MAX));
}

#[test]
fn windows_hold_their_slots() {
    let window = WindowIndex::new(3);
    assert_eq!(window.value(), 3);
    assert_eq!(window.first_slot(4), SlotIndex(12));
    assert_eq!(window.last_slot(4), SlotIndex(15));
    assert_eq!(window.window_start(4), SlotIndex(12));
    assert_eq!(window.first_slot(4).window_index(4), window);
    assert_eq!(window.last_slot(4).window_index(4), window);
    assert_eq!((window.last_slot(4) + 1).window_index(4), window + 1);
    assert_eq!(WindowIndex(0).first_slot(0), SlotIndex(0));
}

#[test]
fn indices_compute() {
    assert_eq!(SlotIndex(3) + 4, SlotIndex(7));
    assert_eq!(SlotIndex(7) - 4, SlotIndex(3));
    assert_eq!(SlotIndex(7) - SlotIndex(2), 5);
    assert_eq!(SlotIndex(7) % 4, 3);
    assert_eq!(WindowIndex(3) + 4, WindowIndex(7));
    assert_eq!(WindowIndex(7) - 4, WindowIndex(3));
    assert_eq!(WindowIndex(7) - WindowIndex(2), 5);
    assert_eq!(WindowIndex(7) * 4, SlotIndex(28));
    assert_eq!(ValidatorIndex(3) + 4, ValidatorIndex(7));
    assert_eq!(ValidatorIndex(7) - 4, ValidatorIndex(3));
    assert_eq!(ValidatorIndex(7) - ValidatorIndex(2), 5);
    assert_eq!(ValidatorIndex(7) % 4, 3);
    assert_eq!(SlotIndex::default(), SlotIndex(0));
    assert_eq!(WindowIndex::default(), WindowIndex(0));
    assert_eq!(ValidatorIndex::default(), ValidatorIndex(0));
}

#[test]
fn indices_convert() {
    assert_eq!(SlotIndex::from(5u32), SlotIndex(5));
    assert_eq!(u32::from(SlotIndex(5)), 5);
    assert_eq!(SlotIndex::from(-1i32), SlotIndex(u32::MAX));
    assert_eq!(i32::from(SlotIndex(u32::MAX)), -1);
    assert_eq!(i32::from(SlotIndex(7)), 7);
    assert_eq!(WindowIndex::from(5u32), WindowIndex(5));
    assert_eq!(u32::from(WindowIndex(5)), 5);
    assert_eq!(ValidatorIndex::from(5u32), ValidatorIndex(5));
    assert_eq!(u32::from(ValidatorIndex(5)), 5);
    assert_eq!(ValidatorIndex::from(6usize), ValidatorIndex(6));
    assert_eq!(usize::from(ValidatorIndex(6)), 6);
}

#[test]
fn validators_are_in_bounds() {
    assert!(ValidatorIndex(2).is_valid(3));
    assert!(!ValidatorIndex(3).is_valid(3));
    assert!(ValidatorIndex(3).is_out_of_bounds(3));
    assert!(!ValidatorIndex(2).is_out_of_bounds(3));
    assert!(!ValidatorIndex(0).is_valid(0));
}

#[test]
fn indices_have_texts() {
    assert_eq!(SlotIndex(42).display(), "s42");
    assert_eq!(WindowIndex(7).display(), "w7");
    assert_eq!(ValidatorIndex(5).display(), "v005");
    assert_eq!(ValidatorIndex(123).display(), "v123");
    assert_eq!(ValidatorIndex(12345).display(), "v12345");
}

#[test]
fn numbers_have_texts() {
    assert_eq!(decimal_text(0), "0");
    assert_eq!(decimal_text(1_234_567), "1234567");
    assert_eq!(decimal_text(u64::MAX), "18446744073709551615");
    assert_eq!(decimal_text_padded(0), "000");
    assert_eq!(decimal_text_padded(42), "042");
    assert_eq!(decimal_text_padded(1000), "1000");
}

#[test]
fn hashes_are_shortened_to_hex() {
    let long = UInt256 { w0: 0xdead_beef_0123_4567, w1: 0, w2: 0, w3: 0 };
    assert_eq!(short_hash(&long), "deadbeef");
    assert_eq!(short_hash(&UInt256 { w0: 0x00ab_09f0_ffff_ffff, w1: 1, w2: 1, w3: 1 }), "00ab09f0");
    assert_eq!(short_hash(&UInt256::zero()), "00000000");
    assert_eq!(long.leading_bytes(), [0xde, 0xad, 0xbe, 0xef]);
}

#[test]
fn identifiers_have_texts() {
    let h = UInt256 { w0: 0x0102_0304_0506_0708, w1: 0, w2: 0, w3: 0 };
    let id = RawCandidateId::from_parts(SlotIndex(9), h);
    assert_eq!(id.display(), "{slot=s9, hash=01020304}");
    assert_eq!(id.as_parent_info().display(), "{slot=s9, hash=01020304}");
    assert_eq!(CandidateId::from_raw(&id, block(77)).display(), "{slot=s9, hash=01020304, block=77}");
}

#[test]
fn identifiers_convert() {
    let raw = RawCandidateId::from_parts(SlotIndex(9), hash(5));
    let full = CandidateId::from_raw(&raw, block(3));
    assert_eq!(full.to_raw(), raw);
    assert_eq!(RawCandidateId::from(full), raw);
    assert_eq!(RawCandidateId::from(&full), raw);
    assert_eq!(full.as_parent_info(), CandidateParentInfo::new(SlotIndex(9), hash(5)));
    assert_eq!(raw.as_parent_info().to_id(), raw);
}

#[test]
fn candidate_hashes_cover_block_and_parent() {
    let parent = RawCandidateId::from_parts(SlotIndex(1), hash(1));
    let candidate = BlockCandidate {
        id: block(5),
        collated_file_hash: hash(8),
        data: vec![1, 2],
        collated_data: vec![3],
        creator: hash(9),
    };
    assert_eq!(
        RawCandidateId::create(Some(&candidate), Some(&parent)),
        CandidateHashInput::Ordinary {
            block: Some(block(5)),
            collated_file_hash: Some(hash(8)),
            parent: Some(parent),
        }
    );
    assert_eq!(
        RawCandidateId::create(None, None),
        CandidateHashInput::Ordinary { block: None, collated_file_hash: None, parent: None }
    );
    assert_eq!(
        RawCandidateId::create_empty(&block(5), &parent),
        CandidateHashInput::Empty { block: block(5), parent }
    );
}

#[test]
fn hashes_and_blocks_are_ordered() {
    let small = UInt256 { w0: 1, w1: 9, w2: 9, w3: 9 };
    let large = UInt256 { w0: 2, w1: 0, w2: 0, w3: 0 };
    assert!(small.less(&large));
    assert!(!large.less(&small));
    assert!(!small.less(&small));
    assert_eq!(small.less(&large), small < large);
    assert!(block(4).less(&block(5)));
    assert!(!block(5).less(&block(5)));
    let other = BlockIdExt { file_hash: hash(12), ..block(4) };
    assert!(block(4).less(&other));
    assert_eq!(block(4).less(&other), block(4) < other);
}

#[test]
fn masterchain_is_known() {
    assert!(ShardIdent { workchain_id: MASTERCHAIN_ID, prefix: SHARD_FULL }.is_masterchain());
    assert!(!ShardIdent { workchain_id: 0, prefix: SHARD_FULL }.is_masterchain());
}

#[test]
fn identifiers_are_sorted_by_slot_and_hash() {
    let id = |slot: u32, first: u64| RawCandidateId::from_parts(SlotIndex(slot), hash(first));
    let mut ids = vec![id(3, 1), id(1, 9), id(1, 2), id(2, 0)];
    sort_by_rank(&mut ids);
    assert_eq!(ids, vec![id(1, 2), id(1, 9), id(2, 0), id(3, 1)]);
    let mut again = vec![id(1, 2), id(1, 9), id(2, 0), id(3, 1)];
    sort_by_rank(&mut again);
    assert_eq!(again, ids);
    let mut slots = vec![SlotIndex(2), SlotIndex(2), SlotIndex(0)];
    sort_by_rank(&mut slots);
    assert_eq!(slots, vec![SlotIndex(0), SlotIndex(2), SlotIndex(2)]);
}

#[test]
fn indices_move_on() {
    let mut slot = SlotIndex(3);
    slot.add_assign(4);
    let mut window = WindowIndex(1);
    window.add_assign(1);
    let mut validator = ValidatorIndex(0);
    validator.add_assign(2);
    assert_eq!((slot.0, window.0, validator.0), (7, 2, 2));
}
