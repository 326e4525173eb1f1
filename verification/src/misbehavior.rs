//! Proofs that a validator broke the rules, and results of votes.

use vstd::prelude::*;
use vstd::string::*;

use crate::block::{SlotIndex, ValidatorIndex};
use crate::chain::UInt256;
use crate::raw_vote::RawVoteData;
use crate::text::{decimal, decimal_text, decimal_text_padded, hash_prefix, pad_to_three, short_hash};

verus! {

/// A vote as a proof names it.
#[derive(Clone, Copy, Debug, PartialEq, Eq, Structural)]
pub enum VoteDescriptor {
    Skip,
    Notarize(UInt256),
    Finalize(UInt256),
}

impl VoteDescriptor {
    /// `skip`, or the kind of the vote with the start of the block's hash.
    pub open spec fn short_text(self) -> Seq<char> {
        match self {
            VoteDescriptor::Skip => "skip"@,
            VoteDescriptor::Notarize(hash) => "notarize:"@ + hash_prefix(hash),
            VoteDescriptor::Finalize(hash) => "finalize:"@ + hash_prefix(hash),
        }
    }

    /// `skip`, or the kind of the vote with the start of the block's hash.
    pub fn format_short(&self) -> (s: String)
        ensures
            s@ == self.short_text(),
    {
        match self {
            VoteDescriptor::Skip => String::from_str("skip"),
            VoteDescriptor::Notarize(hash) => {
                let mut s = String::from_str("notarize:");
                s.append(short_hash(hash).as_str());
                s
            },
            VoteDescriptor::Finalize(hash) => {
                let mut s = String::from_str("finalize:");
                s.append(short_hash(hash).as_str());
                s
            },
        }
    }
}

/// Kind of vote that was sent for two different blocks.
#[derive(Clone, Copy, Debug, PartialEq, Eq, Structural)]
pub enum ConflictingVoteType {
    Notarize,
    Finalize,
}

impl ConflictingVoteType {
    /// Name of the kind.
    pub open spec fn text(self) -> Seq<char> {
        match self {
            ConflictingVoteType::Notarize => "notarize"@,
            ConflictingVoteType::Finalize => "finalize"@,
        }
    }

    /// Name of the kind.
    pub fn as_str(&self) -> (s: &'static str)
        ensures
            s@ == self.text(),
    {
        match self {
            ConflictingVoteType::Notarize => "notarize",
            ConflictingVoteType::Finalize => "finalize",
        }
    }
}

/// Rule that two votes of different kinds break together.
#[derive(Clone, Copy, Debug, PartialEq, Eq, Structural)]
pub enum ConflictReason {
    /// Notarization of one block and finalization of another.
    NotarizeFinalizeHashMismatch,
    /// Finalization in a skipped slot.
    FinalizeAfterSkip,
}

impl ConflictReason {
    /// The rule in words.
    pub open spec fn text(self) -> Seq<char> {
        match self {
            ConflictReason::NotarizeFinalizeHashMismatch =>
                "notarize and finalize for different blocks"@,
            ConflictReason::FinalizeAfterSkip => "finalize after skip"@,
        }
    }

    /// The rule in words.
    pub fn description(&self) -> (s: &'static str)
        ensures
            s@ == self.text(),
    {
        match self {
            ConflictReason::NotarizeFinalizeHashMismatch =>
                "notarize and finalize for different blocks",
            ConflictReason::FinalizeAfterSkip => "finalize after skip",
        }
    }
}

/// Two signed votes of one validator that do not go together.
#[derive(Debug)]
pub enum MisbehaviorProof {
    /// Two votes of one kind for different blocks.
    ConflictingVotes {
        slot: SlotIndex,
        validator_idx: ValidatorIndex,
        vote_type: ConflictingVoteType,
        hash1: UInt256,
        hash2: UInt256,
        vote1: RawVoteData,
        vote2: RawVoteData,
    },
    /// Two votes of different kinds.
    ConflictingVoteTypes {
        slot: SlotIndex,
        validator_idx: ValidatorIndex,
        existing_vote: VoteDescriptor,
        new_vote: VoteDescriptor,
        vote1: RawVoteData,
        vote2: RawVoteData,
        reason: ConflictReason,
    },
}

impl MisbehaviorProof {
    /// Slot of the votes.
    pub open spec fn slot_spec(self) -> SlotIndex {
        match self {
            MisbehaviorProof::ConflictingVotes { slot, .. } => slot,
            MisbehaviorProof::ConflictingVoteTypes { slot, .. } => slot,
        }
    }

    /// Validator that sent the votes.
    pub open spec fn validator_spec(self) -> ValidatorIndex {
        match self {
            MisbehaviorProof::ConflictingVotes { validator_idx, .. } => validator_idx,
            MisbehaviorProof::ConflictingVoteTypes { validator_idx, .. } => validator_idx,
        }
    }

    /// Bytes of the two votes.
    pub open spec fn votes_spec(self) -> (Seq<u8>, Seq<u8>) {
        match self {
            MisbehaviorProof::ConflictingVotes { vote1, vote2, .. } => (vote1@, vote2@),
            MisbehaviorProof::ConflictingVoteTypes { vote1, vote2, .. } => (vote1@, vote2@),
        }
    }

    /// Proof by two votes of one kind.
    pub fn conflicting_votes(
        slot: SlotIndex,
        validator_idx: ValidatorIndex,
        vote_type: ConflictingVoteType,
        hash1: UInt256,
        hash2: UInt256,
        vote1: RawVoteData,
        vote2: RawVoteData,
    ) -> (r: Self)
        ensures
            r == (MisbehaviorProof::ConflictingVotes {
                slot,
                validator_idx,
                vote_type,
                hash1,
                hash2,
                vote1,
                vote2,
            }),
    {
        MisbehaviorProof::ConflictingVotes {
            slot,
            validator_idx,
            vote_type,
            hash1,
            hash2,
            vote1,
            vote2,
        }
    }

    /// Proof by two votes of different kinds.
    pub fn conflicting_types(
        slot: SlotIndex,
        validator_idx: ValidatorIndex,
        existing_vote: VoteDescriptor,
        new_vote: VoteDescriptor,
        vote1: RawVoteData,
        vote2: RawVoteData,
        reason: ConflictReason,
    ) -> (r: Self)
        ensures
            r == (MisbehaviorProof::ConflictingVoteTypes {
                slot,
                validator_idx,
                existing_vote,
                new_vote,
                vote1,
                vote2,
                reason,
            }),
    {
        MisbehaviorProof::ConflictingVoteTypes {
            slot,
            validator_idx,
            existing_vote,
            new_vote,
            vote1,
            vote2,
            reason,
        }
    }

    /// Slot of the votes.
    pub fn slot(&self) -> (r: SlotIndex)
        ensures
            r == self.slot_spec(),
    {
        match self {
            MisbehaviorProof::ConflictingVotes { slot, .. } => *slot,
            MisbehaviorProof::ConflictingVoteTypes { slot, .. } => *slot,
        }
    }

    /// Validator that sent the votes.
    pub fn validator_idx(&self) -> (r: ValidatorIndex)
        ensures
            r == self.validator_spec(),
    {
        match self {
            MisbehaviorProof::ConflictingVotes { validator_idx, .. } => *validator_idx,
            MisbehaviorProof::ConflictingVoteTypes { validator_idx, .. } => *validator_idx,
        }
    }

    /// What is wrong, in words.
    pub fn description(&self) -> (s: &'static str)
        ensures
            s@ == (match self {
                MisbehaviorProof::ConflictingVotes { .. } => "conflicting votes for same slot"@,
                MisbehaviorProof::ConflictingVoteTypes { reason, .. } => reason.text(),
            }),
    {
        match self {
            MisbehaviorProof::ConflictingVotes { .. } => "conflicting votes for same slot",
            MisbehaviorProof::ConflictingVoteTypes { reason, .. } => reason.description(),
        }
    }

    /// Number of bytes of both votes.
    pub fn size_bytes(&self) -> (r: usize)
        requires
            self.votes_spec().0.len() + self.votes_spec().1.len() <= usize::MAX,
        ensures
            r == self.votes_spec().0.len() + self.votes_spec().1.len(),
    {
        match self {
            MisbehaviorProof::ConflictingVotes { vote1, vote2, .. } => vote1.len() + vote2.len(),
            MisbehaviorProof::ConflictingVoteTypes { vote1, vote2, .. } => vote1.len()
                + vote2.len(),
        }
    }

    /// The first eight hexadecimal digits of a hash.
    pub fn format_hash_short(hash: &UInt256) -> (s: String)
        ensures
            s@ == hash_prefix(*hash),
    {
        short_hash(hash)
    }

    /// Block of the first of two votes of one kind.
    pub fn hash1(&self) -> (r: Option<&UInt256>)
        ensures
            match self {
                MisbehaviorProof::ConflictingVotes { hash1, .. } => r == Some(hash1),
                _ => r is None,
            },
    {
        match self {
            MisbehaviorProof::ConflictingVotes { hash1, .. } => Some(hash1),
            _ => None,
        }
    }

    /// Block of the second of two votes of one kind.
    pub fn hash2(&self) -> (r: Option<&UInt256>)
        ensures
            match self {
                MisbehaviorProof::ConflictingVotes { hash2, .. } => r == Some(hash2),
                _ => r is None,
            },
    {
        match self {
            MisbehaviorProof::ConflictingVotes { hash2, .. } => Some(hash2),
            _ => None,
        }
    }

    /// The earlier of two votes of different kinds.
    pub fn existing_vote(&self) -> (r: Option<&VoteDescriptor>)
        ensures
            match self {
                MisbehaviorProof::ConflictingVoteTypes { existing_vote, .. } => r == Some(
                    existing_vote,
                ),
                _ => r is None,
            },
    {
        match self {
            MisbehaviorProof::ConflictingVoteTypes { existing_vote, .. } => Some(existing_vote),
            _ => None,
        }
    }

    /// The later of two votes of different kinds.
    pub fn new_vote(&self) -> (r: Option<&VoteDescriptor>)
        ensures
            match self {
                MisbehaviorProof::ConflictingVoteTypes { new_vote, .. } => r == Some(new_vote),
                _ => r is None,
            },
    {
        match self {
            MisbehaviorProof::ConflictingVoteTypes { new_vote, .. } => Some(new_vote),
            _ => None,
        }
    }

    /// The proof in one line.
    pub open spec fn line(self) -> Seq<char> {
        match self {
            MisbehaviorProof::ConflictingVotes {
                slot,
                validator_idx,
                vote_type,
                hash1,
                hash2,
                vote1,
                vote2,
            } => "conflicting "@ + vote_type.text() + " votes from v"@ + pad_to_three(
                decimal(validator_idx.0 as nat),
            ) + " at slot "@ + decimal(slot.0 as nat) + ": "@ + hash_prefix(hash1) + " vs "@
                + hash_prefix(hash2) + " (raw="@ + decimal(vote1@.len()) + "+"@ + decimal(
                vote2@.len(),
            ) + " bytes)"@,
            MisbehaviorProof::ConflictingVoteTypes {
                slot,
                validator_idx,
                existing_vote,
                new_vote,
                vote1,
                vote2,
                reason,
            } => reason.text() + " from v"@ + pad_to_three(decimal(validator_idx.0 as nat))
                + " at slot "@ + decimal(slot.0 as nat) + ": existing="@
                + existing_vote.short_text() + ", new="@ + new_vote.short_text() + " (raw="@
                + decimal(vote1@.len()) + "+"@ + decimal(vote2@.len()) + " bytes)"@,
        }
    }

    /// The proof in one line.
    pub fn display(&self) -> (s: String)
        ensures
            s@ == self.line(),
    {
        match self {
            MisbehaviorProof::ConflictingVotes {
                slot,
                validator_idx,
                vote_type,
                hash1,
                hash2,
                vote1,
                vote2,
            } => {
                let mut s = String::from_str("conflicting ");
                s.append(vote_type.as_str());
                s.append(" votes from v");
                s.append(decimal_text_padded(validator_idx.0 as u64).as_str());
                s.append(" at slot ");
                s.append(decimal_text(slot.0 as u64).as_str());
                s.append(": ");
                s.append(short_hash(hash1).as_str());
                s.append(" vs ");
                s.append(short_hash(hash2).as_str());
                s.append(" (raw=");
                s.append(decimal_text(vote1.len() as u64).as_str());
                s.append("+");
                s.append(decimal_text(vote2.len() as u64).as_str());
                s.append(" bytes)");
                s
            },
            MisbehaviorProof::ConflictingVoteTypes {
                slot,
                validator_idx,
                existing_vote,
                new_vote,
                vote1,
                vote2,
                reason,
            } => {
                let mut s = String::from_str(reason.description());
                s.append(" from v");
                s.append(decimal_text_padded(validator_idx.0 as u64).as_str());
                s.append(" at slot ");
                s.append(decimal_text(slot.0 as u64).as_str());
                s.append(": existing=");
                s.append(existing_vote.format_short().as_str());
                s.append(", new=");
                s.append(new_vote.format_short().as_str());
                s.append(" (raw=");
                s.append(decimal_text(vote1.len() as u64).as_str());
                s.append("+");
                s.append(decimal_text(vote2.len() as u64).as_str());
                s.append(" bytes)");
                s
            },
        }
    }
}

/// A proof with the validator and the slot it concerns.
#[derive(Debug)]
pub struct MisbehaviorReport {
    pub validator_idx: ValidatorIndex,
    pub slot: SlotIndex,
    pub proof: MisbehaviorProof,
}

impl MisbehaviorReport {
    /// The report in one line.
    pub fn display(&self) -> (s: String)
        ensures
            s@ == "Misbehavior from validator "@ + decimal(self.validator_idx.0 as nat)
                + " at slot "@ + decimal(self.slot.0 as nat) + ": "@ + self.proof.line(),
    {
        let mut s = String::from_str("Misbehavior from validator ");
        s.append(decimal_text(self.validator_idx.0 as u64).as_str());
        s.append(" at slot ");
        s.append(decimal_text(self.slot.0 as u64).as_str());
        s.append(": ");
        s.append(self.proof.display().as_str());
        s
    }
}

/// What became of a vote.
#[derive(Debug)]
pub enum VoteResult {
    /// The vote counts.
    Applied,
    /// The vote was there already.
    Duplicate,
    /// The vote came after its slot was final.
    SlotAlreadyFinalized,
    /// The vote breaks a rule.
    Misbehavior(MisbehaviorProof),
    /// The vote was refused for another reason.
    Rejected(String),
}

impl VoteResult {
    /// Whether the vote counts.
    pub fn is_applied(&self) -> (r: bool)
        ensures
            r == (self is Applied),
    {
        matches!(self, VoteResult::Applied)
    }

    /// Whether the vote was there already.
    pub fn is_duplicate(&self) -> (r: bool)
        ensures
            r == (self is Duplicate),
    {
        matches!(self, VoteResult::Duplicate)
    }

    /// Whether the vote breaks a rule.
    pub fn is_misbehavior(&self) -> (r: bool)
        ensures
            r == (self is Misbehavior),
    {
        matches!(self, VoteResult::Misbehavior(_))
    }

    /// The proof that the vote breaks a rule.
    pub fn misbehavior_proof(&self) -> (r: Option<&MisbehaviorProof>)
        ensures
            match self {
                VoteResult::Misbehavior(proof) => r == Some(proof),
                _ => r is None,
            },
    {
        match self {
            VoteResult::Misbehavior(proof) => Some(proof),
            _ => None,
        }
    }

    /// Whether the vote counts or was there already.
    pub fn is_ok(&self) -> (r: bool)
        ensures
            r == (self is Applied || self is Duplicate),
    {
        matches!(self, VoteResult::Applied | VoteResult::Duplicate)
    }

    /// Whether the vote breaks a rule or was refused.
    pub fn is_err(&self) -> (r: bool)
        ensures
            r == (self is Misbehavior || self is Rejected),
    {
        matches!(self, VoteResult::Misbehavior(_) | VoteResult::Rejected(_))
    }

    /// The result in one line.
    pub fn display(&self) -> (s: String)
        ensures
            s@ == (match self {
                VoteResult::Applied => "applied"@,
                VoteResult::Duplicate => "duplicate"@,
                VoteResult::SlotAlreadyFinalized => "slot already finalized"@,
                VoteResult::Misbehavior(proof) => "misbehavior: "@ + proof.line(),
                VoteResult::Rejected(reason) => "rejected: "@ + reason@,
            }),
    {
        match self {
            VoteResult::Applied => String::from_str("applied"),
            VoteResult::Duplicate => String::from_str("duplicate"),
            VoteResult::SlotAlreadyFinalized => String::from_str("slot already finalized"),
            VoteResult::Misbehavior(proof) => {
                let mut s = String::from_str("misbehavior: ");
                s.append(proof.display().as_str());
                s
            },
            VoteResult::Rejected(reason) => {
                let mut s = String::from_str("rejected: ");
                s.append(reason.as_str());
                s
            },
        }
    }
}

/// A proof names the slot and the validator that it was made for, and carries both votes.
pub proof fn proofs_name_the_culprit(
    slot: SlotIndex,
    validator_idx: ValidatorIndex,
    vote_type: ConflictingVoteType,
    hash1: UInt256,
    hash2: UInt256,
    existing_vote: VoteDescriptor,
    new_vote: VoteDescriptor,
    vote1: RawVoteData,
    vote2: RawVoteData,
    reason: ConflictReason,
)
    ensures
        ({
            let same = MisbehaviorProof::ConflictingVotes {
                slot,
                validator_idx,
                vote_type,
                hash1,
                hash2,
                vote1,
                vote2,
            };
            let other = MisbehaviorProof::ConflictingVoteTypes {
                slot,
                validator_idx,
                existing_vote,
                new_vote,
                vote1,
                vote2,
                reason,
            };
            &&& same.slot_spec() == slot && other.slot_spec() == slot
            &&& same.validator_spec() == validator_idx && other.validator_spec() == validator_idx
            &&& same.votes_spec() == (vote1@, vote2@) && other.votes_spec() == (vote1@, vote2@)
        }),
{
}

} // verus!
