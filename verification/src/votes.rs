//! Votes and how they travel.

use vstd::prelude::*;

use crate::block::SlotIndex;
use crate::candidate::WireCandidateId;
use crate::chain::UInt256;

verus! {

/// Vote to notarize a block in a slot.
#[derive(Clone, Copy, Debug, PartialEq, Eq, Structural)]
pub struct NotarizeVote {
    pub slot: SlotIndex,
    pub block_hash: UInt256,
}

/// Vote to finalize a block in a slot.
#[derive(Clone, Copy, Debug, PartialEq, Eq, Structural)]
pub struct FinalizeVote {
    pub slot: SlotIndex,
    pub block_hash: UInt256,
}

/// Vote to skip a slot.
#[derive(Clone, Copy, Debug, PartialEq, Eq, Structural)]
pub struct SkipVote {
    pub slot: SlotIndex,
}

/// A vote of any kind.
#[derive(Clone, Copy, Debug, PartialEq, Eq, Structural)]
pub enum Vote {
    Notarize(NotarizeVote),
    Finalize(FinalizeVote),
    Skip(SkipVote),
}

impl Vote {
    /// The slot voted on.
    pub open spec fn slot_spec(self) -> SlotIndex {
        match self {
            Vote::Notarize(v) => v.slot,
            Vote::Finalize(v) => v.slot,
            Vote::Skip(v) => v.slot,
        }
    }

    /// The slot voted on.
    pub fn slot(&self) -> (r: SlotIndex)
        ensures
            r == self.slot_spec(),
    {
        match self {
            Vote::Notarize(v) => v.slot,
            Vote::Finalize(v) => v.slot,
            Vote::Skip(v) => v.slot,
        }
    }

    /// The block voted on, unless the vote skips the slot.
    pub open spec fn hash_spec(self) -> Option<UInt256> {
        match self {
            Vote::Notarize(v) => Some(v.block_hash),
            Vote::Finalize(v) => Some(v.block_hash),
            Vote::Skip(_) => None,
        }
    }

    /// The block voted on, unless the vote skips the slot.
    pub fn block_hash(&self) -> (r: Option<UInt256>)
        ensures
            r == self.hash_spec(),
    {
        match self {
            Vote::Notarize(v) => Some(v.block_hash),
            Vote::Finalize(v) => Some(v.block_hash),
            Vote::Skip(_) => None,
        }
    }
}

/// A vote as it travels, where slots are signed.
#[derive(Clone, Copy, Debug, PartialEq, Eq, Structural)]
pub enum UnsignedVote {
    Notarize(WireCandidateId),
    Finalize(WireCandidateId),
    Skip(i32),
}

impl UnsignedVote {
    /// The slot as it stands on the wire.
    pub open spec fn slot_spec(self) -> i32 {
        match self {
            UnsignedVote::Notarize(id) => id.slot,
            UnsignedVote::Finalize(id) => id.slot,
            UnsignedVote::Skip(slot) => slot,
        }
    }

    /// The slot as it stands on the wire.
    pub fn slot(&self) -> (r: i32)
        ensures
            r == self.slot_spec(),
    {
        match self {
            UnsignedVote::Notarize(id) => id.slot,
            UnsignedVote::Finalize(id) => id.slot,
            UnsignedVote::Skip(slot) => *slot,
        }
    }

    /// The block voted on, unless the vote skips the slot.
    pub open spec fn hash_spec(self) -> Option<UInt256> {
        match self {
            UnsignedVote::Notarize(id) => Some(id.hash),
            UnsignedVote::Finalize(id) => Some(id.hash),
            UnsignedVote::Skip(_) => None,
        }
    }

    /// The block voted on, unless the vote skips the slot.
    pub fn block_hash(&self) -> (r: Option<UInt256>)
        ensures
            r == self.hash_spec(),
    {
        match self {
            UnsignedVote::Notarize(id) => Some(id.hash),
            UnsignedVote::Finalize(id) => Some(id.hash),
            UnsignedVote::Skip(_) => None,
        }
    }
}

/// How `vote` travels.
pub open spec fn unsigned(vote: Vote) -> UnsignedVote {
    match vote {
        Vote::Notarize(v) => UnsignedVote::Notarize(
            WireCandidateId { slot: v.slot.0 as i32, hash: v.block_hash },
        ),
        Vote::Finalize(v) => UnsignedVote::Finalize(
            WireCandidateId { slot: v.slot.0 as i32, hash: v.block_hash },
        ),
        Vote::Skip(v) => UnsignedVote::Skip(v.slot.0 as i32),
    }
}

/// A vote of a certain kind.
pub trait ToTlUnsignedVote: Copy {
    /// The vote among all kinds of votes.
    spec fn vote_spec(self) -> Vote;

    /// The vote among all kinds of votes.
    fn to_vote(&self) -> (r: Vote)
        ensures
            r == self.vote_spec(),
    ;

    /// How the vote travels.
    fn to_tl_unsigned(&self) -> (r: UnsignedVote)
        ensures
            r == unsigned(self.vote_spec()),
    ;
}

impl ToTlUnsignedVote for Vote {
    open spec fn vote_spec(self) -> Vote {
        self
    }

    fn to_vote(&self) -> (r: Vote) {
        *self
    }

    fn to_tl_unsigned(&self) -> (r: UnsignedVote) {
        match self {
            Vote::Notarize(v) => v.to_tl_unsigned(),
            Vote::Finalize(v) => v.to_tl_unsigned(),
            Vote::Skip(v) => v.to_tl_unsigned(),
        }
    }
}

impl ToTlUnsignedVote for NotarizeVote {
    open spec fn vote_spec(self) -> Vote {
        Vote::Notarize(self)
    }

    fn to_vote(&self) -> (r: Vote) {
        Vote::Notarize(*self)
    }

    fn to_tl_unsigned(&self) -> (r: UnsignedVote) {
        UnsignedVote::Notarize(
            WireCandidateId { slot: self.slot.0 as i32, hash: self.block_hash },
        )
    }
}

impl ToTlUnsignedVote for FinalizeVote {
    open spec fn vote_spec(self) -> Vote {
        Vote::Finalize(self)
    }

    fn to_vote(&self) -> (r: Vote) {
        Vote::Finalize(*self)
    }

    fn to_tl_unsigned(&self) -> (r: UnsignedVote) {
        UnsignedVote::Finalize(
            WireCandidateId { slot: self.slot.0 as i32, hash: self.block_hash },
        )
    }
}

impl ToTlUnsignedVote for SkipVote {
    open spec fn vote_spec(self) -> Vote {
        Vote::Skip(self)
    }

    fn to_vote(&self) -> (r: Vote) {
        Vote::Skip(*self)
    }

    fn to_tl_unsigned(&self) -> (r: UnsignedVote) {
        UnsignedVote::Skip(self.slot.0 as i32)
    }
}

/// A vote keeps its kind, its slot and its block when it travels, as far as slots fit
/// on the wire; so two votes that travel alike are the same vote.
pub proof fn votes_survive_travel(vote: Vote, other: Vote)
    requires
        vote.slot_spec().0 <= i32::MAX,
        other.slot_spec().0 <= i32::MAX,
    ensures
        unsigned(vote).slot_spec() == vote.slot_spec().0,
        unsigned(vote).hash_spec() == vote.hash_spec(),
        vote is Notarize <==> unsigned(vote) is Notarize,
        vote is Finalize <==> unsigned(vote) is Finalize,
        vote is Skip <==> unsigned(vote) is Skip,
        unsigned(vote) == unsigned(other) ==> vote == other,
{
}

/// A vote is for the slot and, unless it skips, the block that it was made for.
pub proof fn votes_are_for_what_they_name(slot: SlotIndex, block_hash: UInt256, wire: WireCandidateId)
    ensures
        Vote::Notarize(NotarizeVote { slot, block_hash }).slot_spec() == slot,
        Vote::Finalize(FinalizeVote { slot, block_hash }).slot_spec() == slot,
        Vote::Skip(SkipVote { slot }).slot_spec() == slot,
        Vote::Notarize(NotarizeVote { slot, block_hash }).hash_spec() == Some(block_hash),
        Vote::Finalize(FinalizeVote { slot, block_hash }).hash_spec() == Some(block_hash),
        Vote::Skip(SkipVote { slot }).hash_spec() is None,
        UnsignedVote::Notarize(wire).slot_spec() == wire.slot,
        UnsignedVote::Finalize(wire).slot_spec() == wire.slot,
        UnsignedVote::Skip(wire.slot).slot_spec() == wire.slot,
        UnsignedVote::Notarize(wire).hash_spec() == Some(wire.hash),
        UnsignedVote::Finalize(wire).hash_spec() == Some(wire.hash),
        UnsignedVote::Skip(wire.slot).hash_spec() is None,
{
}

} // verus!
