//! Votes, certificates and misbehavior.

use simplex::block::{SlotIndex, ValidatorIndex, WindowIndex};
use simplex::candidate::WireCandidateId;
use simplex::certificate::{
    check_signatures, Certificate, CertificateError, FinalCert, NotarCert, SkipCert, VerifiableVote,
    VoteSignature, WireSignature,
};
use simplex::chain::{ShardIdent, UInt256, MASTERCHAIN_ID, SHARD_FULL};
use simplex::misbehavior::{
    ConflictReason, ConflictingVoteType, MisbehaviorProof, MisbehaviorReport, VoteDescriptor,
    VoteResult,
};
use simplex::raw_vote::RawVoteData;
use simplex::session_description::SessionDescription;
use simplex::votes::{
    FinalizeVote, NotarizeVote, SkipVote, ToTlUnsignedVote, UnsignedVote, Vote,
};

fn hash(first: u64) -> UInt256 {
    UInt256 { w0: first, w1: 0, w2: 0, w3: 0 }
}

fn session(weights: Vec<u64>, threshold: u64) -> SessionDescription {
    let rotation = vec![ValidatorIndex(2), ValidatorIndex(0), ValidatorIndex(1)];
    SessionDescription::new(
        weights, threshold, rotation, ValidatorIndex(1),
        ShardIdent { workchain_id: MASTERCHAIN_ID, prefix: SHARD_FULL }, 4, 11,
    ).unwrap()
}

fn wire(signers: &[i32]) -> Vec<WireSignature> {
    signers.iter().map(|who| WireSignature { who: *who, signature: vec![*who as u8] }).collect()
}

fn notarize(slot: u32, first: u64) -> NotarizeVote {
    NotarizeVote { slot: SlotIndex(slot), block_hash: hash(first) }
}

#[test]
fn sessions_rotate_leaders() {
    let desc = session(vec![10, 20, 30], 41);
    assert_eq!(desc.get_total_nodes(), 3);
    assert_eq!(desc.get_node_weight(ValidatorIndex(2)), 30);
    assert_eq!(desc.get_threshold_66(), 41);
    assert_eq!(desc.get_self_idx(), ValidatorIndex(1));
    assert!(desc.get_shard().is_masterchain());
    assert_eq!(desc.get_slots_per_leader_window(), 4);
    assert_eq!(desc.get_initial_block_seqno(), 11);
    assert_eq!(desc.get_window_idx(SlotIndex(7)), WindowIndex(1));
    assert_eq!(desc.get_leader(SlotIndex(3)), ValidatorIndex(2));
    assert_eq!(desc.get_leader(SlotIndex(4)), ValidatorIndex(0));
    assert_eq!(desc.get_leader(SlotIndex(8)), ValidatorIndex(1));
    assert_eq!(desc.get_leader(SlotIndex(12)), ValidatorIndex(2));
}

#[test]
fn sessions_have_sound_parameters() {
    let shard = ShardIdent::default();
    let who = ValidatorIndex(0);
    let max = u64::MAX;
    assert!(SessionDescription::new(vec![max, 1], max, vec![who], who, shard, 1, 1).is_none());
    assert!(SessionDescription::new(vec![max - 1, 1], max, vec![who], who, shard, 1, 1).is_some());
    assert!(SessionDescription::new(vec![2, 1], 2, vec![who], who, shard, 1, 1).is_some());
    assert!(SessionDescription::new(vec![2, 1], 1, vec![who], who, shard, 1, 1).is_none());
    assert!(SessionDescription::new(vec![1], 1, vec![], who, shard, 1, 1).is_none());
    assert!(SessionDescription::new(vec![1], 1, vec![who], who, shard, 0, 1).is_none());
}

#[test]
fn votes_travel() {
    let n = Vote::Notarize(notarize(5, 6));
    assert_eq!(n.slot(), SlotIndex(5));
    assert_eq!(n.block_hash(), Some(hash(6)));
    assert_eq!(
        n.to_tl_unsigned(),
        UnsignedVote::Notarize(WireCandidateId { slot: 5, hash: hash(6) })
    );
    let f = FinalizeVote { slot: SlotIndex(5), block_hash: hash(6) };
    assert_eq!(f.to_vote().slot(), SlotIndex(5));
    assert_eq!(f.to_vote().block_hash(), Some(hash(6)));
    assert_eq!(
        f.to_tl_unsigned(),
        UnsignedVote::Finalize(WireCandidateId { slot: 5, hash: hash(6) })
    );
    let s = SkipVote { slot: SlotIndex(u32::MAX) };
    assert_eq!(s.to_vote(), Vote::Skip(s));
    assert_eq!(s.to_vote().block_hash(), None);
    assert_eq!(s.to_tl_unsigned(), UnsignedVote::Skip(-1));
    assert_eq!(s.to_tl_unsigned().slot(), -1);
    assert_eq!(s.to_tl_unsigned().block_hash(), None);
    assert_eq!(f.to_tl_unsigned().block_hash(), Some(hash(6)));
    assert_eq!(n.to_tl_unsigned().slot(), 5);
}

#[test]
fn vote_kinds_are_told_apart() {
    let id = WireCandidateId { slot: 5, hash: hash(6) };
    let pair = Some((SlotIndex(5), Some(hash(6))));
    assert_eq!(NotarizeVote::extract_from_tl(&UnsignedVote::Notarize(id)), pair);
    assert_eq!(NotarizeVote::extract_from_tl(&UnsignedVote::Finalize(id)), None);
    assert_eq!(FinalizeVote::extract_from_tl(&UnsignedVote::Finalize(id)), pair);
    assert_eq!(FinalizeVote::extract_from_tl(&UnsignedVote::Skip(5)), None);
    assert_eq!(SkipVote::extract_from_tl(&UnsignedVote::Skip(5)), Some((SlotIndex(5), None)));
    assert_eq!(SkipVote::extract_from_tl(&UnsignedVote::Notarize(id)), None);
    assert_eq!(NotarizeVote::create(SlotIndex(5), Some(hash(6))), Ok(notarize(5, 6)));
    assert_eq!(
        NotarizeVote::create(SlotIndex(5), None),
        Err(CertificateError::VoteNeedsBlockHash)
    );
    assert_eq!(
        FinalizeVote::create(SlotIndex(5), None),
        Err(CertificateError::VoteNeedsBlockHash)
    );
    assert_eq!(SkipVote::create(SlotIndex(5), None), Ok(SkipVote { slot: SlotIndex(5) }));
    assert_eq!(NotarizeVote::vote_type_name(), "notarize");
    assert_eq!(FinalizeVote::vote_type_name(), "finalize");
    assert_eq!(SkipVote::vote_type_name(), "skip");
}

#[test]
fn signatures_travel_unchanged() {
    let sig = VoteSignature::new(ValidatorIndex(u32::MAX), vec![1, 2, 3]);
    let wire = sig.to_tl();
    assert_eq!(wire.who, -1);
    let back = VoteSignature::from_tl(&wire);
    assert_eq!(back.validator_idx, ValidatorIndex(u32::MAX));
    assert_eq!(back.signature, vec![1, 2, 3]);
}

#[test]
fn signatures_are_checked() {
    let desc = session(vec![10, 20, 30], 41);
    let (sigs, weight) = check_signatures(&wire(&[0, 2]), &vec![true, true], &desc).unwrap();
    assert_eq!(weight, 40);
    assert_eq!(sigs.len(), 2);
    assert_eq!(sigs[1].validator_idx, ValidatorIndex(2));
    assert_eq!(sigs[1].signature, vec![2]);
    assert_eq!(
        check_signatures(&wire(&[0, 3]), &vec![true, true], &desc).unwrap_err(),
        CertificateError::InvalidValidatorIndex(ValidatorIndex(3))
    );
    assert_eq!(
        check_signatures(&wire(&[-1]), &vec![true], &desc).unwrap_err(),
        CertificateError::InvalidValidatorIndex(ValidatorIndex(u32::MAX))
    );
    assert_eq!(
        check_signatures(&wire(&[1, 1]), &vec![true, false], &desc).unwrap_err(),
        CertificateError::DuplicateValidator(ValidatorIndex(1))
    );
    assert_eq!(
        check_signatures(&wire(&[0, 1, 7]), &vec![true, false, true], &desc).unwrap_err(),
        CertificateError::InvalidSignature(ValidatorIndex(1))
    );
}

#[test]
fn certificates_need_weight() {
    let desc = session(vec![10, 20, 30], 41);
    let cert =
        NotarCert::from_tl_signatures(&wire(&[1, 2]), &vec![true, true], notarize(5, 6), &desc)
            .unwrap();
    assert_eq!(cert.total_weight(&desc), 50);
    assert!(cert.has_sufficient_weight(&desc));
    assert_eq!(
        NotarCert::from_tl_signatures(&wire(&[0, 2]), &vec![true, true], notarize(5, 6), &desc)
            .unwrap_err(),
        CertificateError::NotEnoughWeight { weight: 40, threshold: 41 }
    );
    let light = Certificate::new(notarize(5, 6), vec![VoteSignature::new(ValidatorIndex(0), vec![])]);
    assert_eq!(light.total_weight(&desc), 10);
    assert!(!light.has_sufficient_weight(&desc));
}

#[test]
fn arrived_certificates_need_a_readable_vote() {
    let desc = session(vec![10, 20, 30], 41);
    let vote = Vote::Skip(SkipVote { slot: SlotIndex(5) });
    let cert = Certificate::<Vote>::from_tl(Some(vote), &wire(&[1, 2]), &vec![true, true], &desc)
        .unwrap();
    assert_eq!(cert.vote, vote);
    assert_eq!(
        Certificate::<Vote>::from_tl(None, &wire(&[1, 2]), &vec![true, true], &desc).unwrap_err(),
        CertificateError::UnreadableVote
    );
}

#[test]
fn certificates_certify_the_expected_vote() {
    let desc = session(vec![10, 20, 30], 41);
    let tl = UnsignedVote::Finalize(WireCandidateId { slot: 5, hash: hash(6) });
    let sigs = wire(&[1, 2]);
    let ok = vec![true, true];
    let cert =
        FinalCert::verify_from_tl(&tl, &sigs, &ok, SlotIndex(5), Some(hash(6)), &desc).unwrap();
    assert_eq!(cert.vote, FinalizeVote { slot: SlotIndex(5), block_hash: hash(6) });
    assert_eq!(
        NotarCert::verify_from_tl(&tl, &sigs, &ok, SlotIndex(5), Some(hash(6)), &desc).unwrap_err(),
        CertificateError::WrongVoteType
    );
    assert_eq!(
        FinalCert::verify_from_tl(&tl, &sigs, &ok, SlotIndex(4), Some(hash(6)), &desc).unwrap_err(),
        CertificateError::SlotMismatch { expected: SlotIndex(4), got: SlotIndex(5) }
    );
    assert_eq!(
        FinalCert::verify_from_tl(&tl, &sigs, &ok, SlotIndex(5), Some(hash(7)), &desc).unwrap_err(),
        CertificateError::BlockHashMismatch
    );
    assert_eq!(
        FinalCert::verify_from_tl(&tl, &sigs, &ok, SlotIndex(5), None, &desc).unwrap_err(),
        CertificateError::VoteNeedsBlockHash
    );
    assert_eq!(
        FinalCert::verify_from_tl(&tl, &wire(&[0, 2]), &ok, SlotIndex(5), Some(hash(6)), &desc)
            .unwrap_err(),
        CertificateError::NotEnoughWeight { weight: 40, threshold: 41 }
    );
    let skip = UnsignedVote::Skip(5);
    assert_eq!(
        SkipCert::verify_from_tl(&skip, &sigs, &ok, SlotIndex(5), Some(hash(6)), &desc).unwrap_err(),
        CertificateError::MissingBlockHash
    );
    assert!(SkipCert::verify_from_tl(&skip, &sigs, &ok, SlotIndex(5), None, &desc).is_ok());
}

#[test]
fn certificates_travel() {
    let cert = NotarCert::from_tl_bytes_for_candidate(&wire(&[2, 0]), SlotIndex(5), hash(6));
    assert_eq!(cert.vote, notarize(5, 6));
    let (vote, sigs) = cert.to_tl();
    assert_eq!(vote, UnsignedVote::Notarize(WireCandidateId { slot: 5, hash: hash(6) }));
    assert_eq!(sigs.iter().map(|s| s.who).collect::<Vec<i32>>(), vec![2, 0]);
    assert_eq!(cert.to_tl_vote_signature_set()[0].signature, vec![2]);
}

#[test]
fn two_certificates_share_a_third_of_the_weight() {
    let desc = session(vec![10, 10, 10], 20);
    let ok = vec![true, true];
    let a = NotarCert::from_tl_signatures(&wire(&[0, 1]), &ok, notarize(5, 6), &desc).unwrap();
    let b = NotarCert::from_tl_signatures(&wire(&[1, 2]), &ok, notarize(5, 7), &desc).unwrap();
    let common: u64 = a.signatures.iter()
        .filter(|s| b.signatures.iter().any(|t| t.validator_idx == s.validator_idx))
        .map(|s| desc.get_node_weight(s.validator_idx))
        .sum();
    assert_eq!(common, 10);
}

#[test]
fn raw_votes_share_their_bytes() {
    let raw = RawVoteData::new(vec![1, 2, 3]);
    assert_eq!(raw.len(), 3);
    assert!(!raw.is_empty());
    assert_eq!(raw.as_bytes(), &[1u8, 2, 3][..]);
    assert_eq!(*raw.as_raw_buffer(), vec![1, 2, 3]);
    assert_eq!(raw.to_raw_buffer(), vec![1, 2, 3]);
    assert_eq!(raw.share().as_bytes(), raw.as_bytes());
    assert!(RawVoteData::default().is_empty());
    assert_eq!(RawVoteData::from_vec(vec![7]).len(), 1);
}

fn votes_proof() -> MisbehaviorProof {
    MisbehaviorProof::conflicting_votes(
        SlotIndex(9), ValidatorIndex(4), ConflictingVoteType::Notarize,
        hash(0x0a0b_0c0d_0000_0000), hash(0x0102_0304_0000_0000),
        RawVoteData::new(vec![1, 2]), RawVoteData::new(vec![3, 4, 5]),
    )
}

#[test]
fn conflicting_votes_are_described() {
    let proof = votes_proof();
    assert_eq!(proof.slot(), SlotIndex(9));
    assert_eq!(proof.validator_idx(), ValidatorIndex(4));
    assert_eq!(proof.size_bytes(), 5);
    assert_eq!(proof.hash1(), Some(&hash(0x0a0b_0c0d_0000_0000)));
    assert_eq!(proof.hash2(), Some(&hash(0x0102_0304_0000_0000)));
    assert_eq!(proof.existing_vote(), None);
    assert_eq!(proof.new_vote(), None);
    assert_eq!(
        proof.display(),
        "conflicting notarize votes from v004 at slot 9: 0a0b0c0d vs 01020304 (raw=2+3 bytes)"
    );
    let report = MisbehaviorReport { validator_idx: ValidatorIndex(4), slot: SlotIndex(9), proof };
    assert_eq!(
        report.display(),
        "Misbehavior from validator 4 at slot 9: conflicting notarize votes from v004 at slot 9: \
         0a0b0c0d vs 01020304 (raw=2+3 bytes)"
    );
    assert_eq!(ConflictingVoteType::Finalize.as_str(), "finalize");
    assert_eq!(MisbehaviorProof::format_hash_short(&hash(0xff00_0000_0000_0000)), "ff000000");
}

#[test]
fn conflicting_kinds_are_described() {
    let proof = MisbehaviorProof::conflicting_types(
        SlotIndex(9), ValidatorIndex(4), VoteDescriptor::Skip,
        VoteDescriptor::Finalize(hash(0x0102_0304_0000_0000)),
        RawVoteData::new(vec![1]), RawVoteData::new(vec![2]), ConflictReason::FinalizeAfterSkip,
    );
    assert_eq!(proof.slot(), SlotIndex(9));
    assert_eq!(proof.validator_idx(), ValidatorIndex(4));
    assert_eq!(proof.hash1(), None);
    assert_eq!(proof.hash2(), None);
    assert_eq!(proof.existing_vote(), Some(&VoteDescriptor::Skip));
    assert_eq!(
        proof.new_vote().map(|v| v.format_short()),
        Some(String::from("finalize:01020304"))
    );
    assert_eq!(proof.description(), "finalize after skip");
    assert_eq!(
        ConflictReason::NotarizeFinalizeHashMismatch.description(),
        "notarize and finalize for different blocks"
    );
    assert_eq!(VoteDescriptor::Skip.format_short(), "skip");
    assert_eq!(
        VoteDescriptor::Notarize(hash(0x0102_0304_0000_0000)).format_short(),
        "notarize:01020304"
    );
    println!("{}", proof.display());
}

#[test]
fn vote_results_are_told_apart() {
    assert!(VoteResult::Applied.is_applied());
    assert!(VoteResult::Applied.is_ok());
    assert!(!VoteResult::Applied.is_err());
    assert!(VoteResult::Duplicate.is_duplicate());
    assert!(VoteResult::Duplicate.is_ok());
    assert!(!VoteResult::SlotAlreadyFinalized.is_ok());
    assert!(!VoteResult::SlotAlreadyFinalized.is_err());
    let bad = VoteResult::Misbehavior(votes_proof());
    assert!(bad.is_misbehavior());
    assert!(bad.is_err());
    assert_eq!(bad.misbehavior_proof().map(|p| p.slot()), Some(SlotIndex(9)));
    assert!(VoteResult::Applied.misbehavior_proof().is_none());
    assert!(VoteResult::Rejected(String::from("late")).is_err());
    assert_eq!(VoteResult::Applied.display(), "applied");
    assert_eq!(VoteResult::Duplicate.display(), "duplicate");
    assert_eq!(VoteResult::SlotAlreadyFinalized.display(), "slot already finalized");
    assert_eq!(VoteResult::Rejected(String::from("late")).display(), "rejected: late");
    assert_eq!(
        bad.display(),
        "misbehavior: conflicting notarize votes from v004 at slot 9: 0a0b0c0d vs 01020304 \
         (raw=2+3 bytes)"
    );
}
