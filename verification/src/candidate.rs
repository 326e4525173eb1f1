//! Block candidates: as they travel, as they are received, and as they are
//! resolved against their parent.

use vstd::prelude::*;

use crate::block::{CandidateHashInput, CandidateId, RawCandidateId, SlotIndex, ValidatorIndex};
use crate::chain::{BlockIdExt, UInt256};

verus! {

/// Block data with its metadata.
#[derive(Debug)]
pub struct BlockCandidate {
    /// Block identifier.
    pub id: BlockIdExt,
    /// Hash of the collated data.
    pub collated_file_hash: UInt256,
    /// Block data.
    pub data: Vec<u8>,
    /// Collated data.
    pub collated_data: Vec<u8>,
    /// Public key of the leader that made the block.
    pub creator: UInt256,
}

/// The contents of a [`BlockCandidate`].
pub struct BlockCandidateView {
    pub id: BlockIdExt,
    pub collated_file_hash: UInt256,
    pub data: Seq<u8>,
    pub collated_data: Seq<u8>,
    pub creator: UInt256,
}

impl View for BlockCandidate {
    type V = BlockCandidateView;

    open spec fn view(&self) -> BlockCandidateView {
        BlockCandidateView {
            id: self.id,
            collated_file_hash: self.collated_file_hash,
            data: self.data@,
            collated_data: self.collated_data@,
            creator: self.creator,
        }
    }
}

impl BlockCandidate {
    /// A copy with the same contents.
    pub fn duplicate(&self) -> (r: BlockCandidate)
        ensures
            r@ == self@,
    {
        BlockCandidate {
            id: self.id,
            collated_file_hash: self.collated_file_hash,
            data: self.data.clone(),
            collated_data: self.collated_data.clone(),
            creator: self.creator,
        }
    }
}

/// What a candidate carries: a block of its own, or the identifier of the
/// parent's block that it re-signs.
#[derive(Debug)]
pub enum CandidateBlockData {
    Empty(BlockIdExt),
    NonEmpty(BlockCandidate),
}

/// The contents of a [`CandidateBlockData`].
pub enum CandidateBlockView {
    Empty(BlockIdExt),
    NonEmpty(BlockCandidateView),
}

impl CandidateBlockView {
    /// The block that the data stands for.
    pub open spec fn block_id(self) -> BlockIdExt {
        match self {
            CandidateBlockView::Empty(id) => id,
            CandidateBlockView::NonEmpty(block) => block.id,
        }
    }
}

impl View for CandidateBlockData {
    type V = CandidateBlockView;

    open spec fn view(&self) -> CandidateBlockView {
        match self {
            CandidateBlockData::Empty(id) => CandidateBlockView::Empty(*id),
            CandidateBlockData::NonEmpty(block) => CandidateBlockView::NonEmpty(block@),
        }
    }
}

impl CandidateBlockData {
    /// Whether the candidate has no block of its own.
    pub fn is_empty(&self) -> (r: bool)
        ensures
            r == (self@ is Empty),
    {
        matches!(self, CandidateBlockData::Empty(_))
    }

    /// The re-signed block, or the candidate's own.
    pub fn block_id(&self) -> (r: &BlockIdExt)
        ensures
            *r == self@.block_id(),
    {
        match self {
            CandidateBlockData::Empty(id) => id,
            CandidateBlockData::NonEmpty(block) => &block.id,
        }
    }

    /// The candidate's own block, if it has one.
    pub fn as_block(&self) -> (r: Option<&BlockCandidate>)
        ensures
            match r {
                Some(b) => self@ == CandidateBlockView::NonEmpty(b@) && *self
                    == CandidateBlockData::NonEmpty(*b),
                None => self@ is Empty,
            },
    {
        match self {
            CandidateBlockData::Empty(_) => None,
            CandidateBlockData::NonEmpty(block) => Some(block),
        }
    }

    /// The re-signed block, if the candidate has none of its own.
    pub fn as_empty(&self) -> (r: Option<&BlockIdExt>)
        ensures
            match r {
                Some(id) => self@ == CandidateBlockView::Empty(*id),
                None => self@ is NonEmpty,
            },
    {
        match self {
            CandidateBlockData::Empty(id) => Some(id),
            CandidateBlockData::NonEmpty(_) => None,
        }
    }

    /// A copy with the same contents.
    pub fn duplicate(&self) -> (r: CandidateBlockData)
        ensures
            r@ == self@,
    {
        match self {
            CandidateBlockData::Empty(id) => CandidateBlockData::Empty(*id),
            CandidateBlockData::NonEmpty(block) => CandidateBlockData::NonEmpty(block.duplicate()),
        }
    }
}

/// A candidate identifier on the wire, where slots are signed.
#[derive(Clone, Copy, Debug, PartialEq, Eq, Structural)]
pub struct WireCandidateId {
    pub slot: i32,
    pub hash: UInt256,
}

impl WireCandidateId {
    /// The identifier.
    pub open spec fn decoded(self) -> RawCandidateId {
        RawCandidateId { slot: SlotIndex(self.slot as u32), hash: self.hash }
    }

    /// How `id` stands on the wire.
    pub open spec fn encoded(id: RawCandidateId) -> WireCandidateId {
        WireCandidateId { slot: id.slot.0 as i32, hash: id.hash }
    }

    /// How `id` stands on the wire.
    pub fn encode(id: &RawCandidateId) -> (r: WireCandidateId)
        ensures
            r == WireCandidateId::encoded(*id),
    {
        WireCandidateId { slot: id.slot.0 as i32, hash: id.hash }
    }

    /// The identifier.
    pub fn decode(&self) -> (r: RawCandidateId)
        ensures
            r == self.decoded(),
    {
        RawCandidateId { slot: SlotIndex(self.slot as u32), hash: self.hash }
    }
}

/// A candidate as it travels between validators.
#[allow(inconsistent_fields)]
#[derive(Debug)]
pub enum CandidateData {
    /// A candidate with a serialized block.
    Block {
        slot: i32,
        candidate: Vec<u8>,
        parent: Option<WireCandidateId>,
        signature: Vec<u8>,
    },
    /// A candidate that re-signs the block of its parent.
    Empty { slot: i32, parent: WireCandidateId, block: BlockIdExt, signature: Vec<u8> },
}

/// The contents of a [`CandidateData`].
#[allow(inconsistent_fields)]
pub enum CandidateDataView {
    Block {
        slot: i32,
        candidate: Seq<u8>,
        parent: Option<WireCandidateId>,
        signature: Seq<u8>,
    },
    Empty { slot: i32, parent: WireCandidateId, block: BlockIdExt, signature: Seq<u8> },
}

impl CandidateDataView {
    /// The slot as it stands on the wire.
    pub open spec fn slot(self) -> i32 {
        match self {
            CandidateDataView::Block { slot, .. } => slot,
            CandidateDataView::Empty { slot, .. } => slot,
        }
    }

    /// The leader's signature.
    pub open spec fn signature(self) -> Seq<u8> {
        match self {
            CandidateDataView::Block { signature, .. } => signature,
            CandidateDataView::Empty { signature, .. } => signature,
        }
    }

    /// The parent as it stands on the wire.
    pub open spec fn parent(self) -> Option<WireCandidateId> {
        match self {
            CandidateDataView::Block { parent, .. } => parent,
            CandidateDataView::Empty { parent, .. } => Some(parent),
        }
    }
}

impl View for CandidateData {
    type V = CandidateDataView;

    open spec fn view(&self) -> CandidateDataView {
        match self {
            CandidateData::Block {
                slot,
                candidate,
                parent,
                signature,
            } => CandidateDataView::Block {
                slot: *slot,
                candidate: candidate@,
                parent: *parent,
                signature: signature@,
            },
            CandidateData::Empty { slot, parent, block, signature } => CandidateDataView::Empty {
                slot: *slot,
                parent: *parent,
                block: *block,
                signature: signature@,
            },
        }
    }
}

impl CandidateData {
    /// The slot as it stands on the wire.
    pub fn slot(&self) -> (r: i32)
        ensures
            r == self@.slot(),
    {
        match self {
            CandidateData::Block { slot, .. } => *slot,
            CandidateData::Empty { slot, .. } => *slot,
        }
    }

    /// The parent as it stands on the wire.
    pub fn parent(&self) -> (r: Option<WireCandidateId>)
        ensures
            r == self@.parent(),
    {
        match self {
            CandidateData::Block { parent, .. } => *parent,
            CandidateData::Empty { parent, .. } => Some(*parent),
        }
    }

    /// The leader's signature.
    pub fn signature(&self) -> (r: &Vec<u8>)
        ensures
            r@ == self@.signature(),
    {
        match self {
            CandidateData::Block { signature, .. } => signature,
            CandidateData::Empty { signature, .. } => signature,
        }
    }

    /// A copy with the same contents.
    pub fn duplicate(&self) -> (r: CandidateData)
        ensures
            r@ == self@,
    {
        match self {
            CandidateData::Block { slot, candidate, parent, signature } => CandidateData::Block {
                slot: *slot,
                candidate: candidate.clone(),
                parent: *parent,
                signature: signature.clone(),
            },
            CandidateData::Empty { slot, parent, block, signature } => CandidateData::Empty {
                slot: *slot,
                parent: *parent,
                block: *block,
                signature: signature.clone(),
            },
        }
    }
}

/// Block fields decoded from the bytes of a candidate.
#[derive(Debug)]
pub struct BlockInfo {
    pub block_id: BlockIdExt,
    pub collated_file_hash: UInt256,
    pub data: Vec<u8>,
    pub collated_data: Vec<u8>,
}

/// What decoding the bytes of a candidate gave.
#[derive(Debug)]
pub enum BlockInfoOutcome {
    /// The bytes could not be read.
    Unreadable,
    /// The bytes hold no block.
    Absent,
    /// The bytes hold this block.
    Present(BlockInfo),
}

/// Why a travelling candidate is not accepted.
#[derive(Clone, Copy, Debug, PartialEq, Eq, Structural)]
pub enum CandidateError {
    /// The parent's slot is negative.
    NegativeParentSlot(i32),
    /// A candidate with a block has no bytes for it.
    EmptyCandidateBytes,
    /// The block bytes could not be read.
    UnreadableBlock,
    /// The block bytes hold no block.
    MissingBlockInfo,
    /// A candidate without a block has no parent.
    EmptyWithoutParent,
    /// The slot is negative.
    NegativeSlot(i32),
    /// The leader's signature does not verify.
    InvalidSignature,
}

/// A candidate whose parent may not be known yet.
#[derive(Debug)]
pub struct RawCandidate {
    /// Identifier by slot and hash.
    pub id: RawCandidateId,
    /// Parent; always there for a candidate without a block of its own.
    pub parent_id: Option<RawCandidateId>,
    /// Leader that made the candidate.
    pub leader: ValidatorIndex,
    /// The candidate's block data.
    pub block: CandidateBlockData,
    /// The leader's signature.
    pub signature: Vec<u8>,
}

/// The contents of a [`RawCandidate`].
pub struct RawCandidateView {
    pub id: RawCandidateId,
    pub parent_id: Option<RawCandidateId>,
    pub leader: ValidatorIndex,
    pub block: CandidateBlockView,
    pub signature: Seq<u8>,
}

impl RawCandidateView {
    /// A candidate without a block of its own has a parent.
    pub open spec fn wf(self) -> bool {
        self.block is Empty ==> self.parent_id is Some
    }
}

impl View for RawCandidate {
    type V = RawCandidateView;

    open spec fn view(&self) -> RawCandidateView {
        RawCandidateView {
            id: self.id,
            parent_id: self.parent_id,
            leader: self.leader,
            block: self.block@,
            signature: self.signature@,
        }
    }
}

/// The parent that a travelling candidate names.
pub open spec fn parent_of(tl: CandidateDataView) -> Result<Option<RawCandidateId>, CandidateError> {
    match tl.parent() {
        None => Ok(None),
        Some(p) => if p.slot < 0 {
            Err(CandidateError::NegativeParentSlot(p.slot))
        } else {
            Ok(Some(p.decoded()))
        },
    }
}

/// The block data that a travelling candidate carries, given what decoding its
/// bytes gave.
pub open spec fn block_data_of(
    tl: CandidateDataView,
    info: BlockInfoOutcome,
    leader_key: UInt256,
) -> Result<CandidateBlockView, CandidateError> {
    match tl {
        CandidateDataView::Empty { block, .. } => Ok(CandidateBlockView::Empty(block)),
        CandidateDataView::Block { candidate, .. } => if candidate.len() == 0 {
            Err(CandidateError::EmptyCandidateBytes)
        } else {
            match info {
                BlockInfoOutcome::Unreadable => Err(CandidateError::UnreadableBlock),
                BlockInfoOutcome::Absent => Err(CandidateError::MissingBlockInfo),
                BlockInfoOutcome::Present(b) => Ok(
                    CandidateBlockView::NonEmpty(
                        BlockCandidateView {
                            id: b.block_id,
                            collated_file_hash: b.collated_file_hash,
                            data: b.data@,
                            collated_data: b.collated_data@,
                            creator: leader_key,
                        },
                    ),
                ),
            }
        },
    }
}

/// What the hash of the candidate's identifier is computed from.
pub open spec fn hash_input_of(
    block: CandidateBlockView,
    parent: Option<RawCandidateId>,
) -> CandidateHashInput {
    match block {
        CandidateBlockView::NonEmpty(b) => CandidateHashInput::Ordinary {
            block: Some(b.id),
            collated_file_hash: Some(b.collated_file_hash),
            parent,
        },
        CandidateBlockView::Empty(b) => CandidateHashInput::Empty {
            block: b,
            parent: parent->Some_0,
        },
    }
}

/// A travelling candidate taken apart, before its hash and signature are known.
#[derive(Debug)]
pub struct CandidateParts {
    pub slot: SlotIndex,
    pub parent_id: Option<RawCandidateId>,
    pub block: CandidateBlockData,
}

/// The parts of a travelling candidate, or the first reason why it has none.
pub open spec fn parts_of(
    tl: CandidateDataView,
    info: BlockInfoOutcome,
    leader_key: UInt256,
) -> Result<(SlotIndex, Option<RawCandidateId>, CandidateBlockView), CandidateError> {
    match parent_of(tl) {
        Err(e) => Err(e),
        Ok(parent) => match block_data_of(tl, info, leader_key) {
            Err(e) => Err(e),
            Ok(block) => if block is Empty && parent is None {
                Err(CandidateError::EmptyWithoutParent)
            } else if tl.slot() < 0 {
                Err(CandidateError::NegativeSlot(tl.slot()))
            } else {
                Ok((SlotIndex(tl.slot() as u32), parent, block))
            },
        },
    }
}

impl CandidateParts {
    /// What the hash of the candidate's identifier is computed from.
    pub fn hash_input(&self) -> (r: CandidateHashInput)
        requires
            self.block@ is Empty ==> self.parent_id is Some,
        ensures
            r == hash_input_of(self.block@, self.parent_id),
    {
        match &self.block {
            CandidateBlockData::NonEmpty(block) => RawCandidateId::create(
                Some(block),
                self.parent_id.as_ref(),
            ),
            CandidateBlockData::Empty(block) => {
                let parent: RawCandidateId = self.parent_id.unwrap();
                RawCandidateId::create_empty(block, &parent)
            },
        }
    }
}

/// The candidate that travels as `tl`, or the first reason why it is refused.
///
/// `info`, `hash` and `signature_valid` are what decoding the block bytes,
/// hashing the identifier's input and verifying the signature gave.
pub open spec fn candidate_of(
    tl: CandidateDataView,
    info: BlockInfoOutcome,
    leader: ValidatorIndex,
    leader_key: UInt256,
    hash: UInt256,
    signature_valid: bool,
) -> Result<RawCandidateView, CandidateError> {
    match parts_of(tl, info, leader_key) {
        Err(e) => Err(e),
        Ok((slot, parent_id, block)) => if !signature_valid {
            Err(CandidateError::InvalidSignature)
        } else {
            Ok(
                RawCandidateView {
                    id: RawCandidateId { slot, hash },
                    parent_id,
                    leader,
                    block,
                    signature: tl.signature(),
                },
            )
        },
    }
}

impl RawCandidate {
    /// A candidate with a block of its own.
    pub fn new(
        id: RawCandidateId,
        parent_id: Option<RawCandidateId>,
        leader: ValidatorIndex,
        block: BlockCandidate,
        signature: Vec<u8>,
    ) -> (r: Self)
        ensures
            r@ == (RawCandidateView {
                id,
                parent_id,
                leader,
                block: CandidateBlockView::NonEmpty(block@),
                signature: signature@,
            }),
            r@.wf(),
    {
        RawCandidate { id, parent_id, leader, block: CandidateBlockData::NonEmpty(block), signature }
    }

    /// A candidate that re-signs the block of its parent.
    pub fn new_empty(
        id: RawCandidateId,
        parent_id: RawCandidateId,
        leader: ValidatorIndex,
        referenced_block: BlockIdExt,
        signature: Vec<u8>,
    ) -> (r: Self)
        ensures
            r@ == (RawCandidateView {
                id,
                parent_id: Some(parent_id),
                leader,
                block: CandidateBlockView::Empty(referenced_block),
                signature: signature@,
            }),
            r@.wf(),
    {
        RawCandidate {
            id,
            parent_id: Some(parent_id),
            leader,
            block: CandidateBlockData::Empty(referenced_block),
            signature,
        }
    }

    /// Whether the candidate has no block of its own.
    pub fn is_empty(&self) -> (r: bool)
        ensures
            r == (self@.block is Empty),
    {
        self.block.is_empty()
    }

    /// The candidate resolved against its parent.
    ///
    /// An explicit `parent` wins over the candidate's own parent; without one
    /// the own parent is taken with a placeholder for its block.
    pub fn resolve(&self, parent: Option<&CandidateId>) -> (r: Candidate)
        requires
            self@.wf() || parent is Some,
        ensures
            r@ == resolved(self@, parent),
            r@.wf(),
    {
        let block_id: BlockIdExt = *self.block.block_id();
        let parent_id: Option<CandidateId> = match parent {
            Some(p) => Some(*p),
            None => match &self.parent_id {
                Some(raw) => Some(CandidateId::from_raw(raw, BlockIdExt::default())),
                None => None,
            },
        };
        let block: Option<BlockCandidate> = match self.block.as_block() {
            Some(b) => Some(b.duplicate()),
            None => None,
        };
        Candidate::new(
            CandidateId::from_raw(&self.id, block_id),
            parent_id,
            self.leader,
            block,
            self.signature.clone(),
        )
    }

    /// Takes a travelling candidate apart.
    ///
    /// `info` is what decoding the block bytes gave.
    pub fn prepare(tl: &CandidateData, info: &BlockInfoOutcome, leader_key: UInt256) -> (r: Result<
        CandidateParts,
        CandidateError,
    >)
        ensures
            match r {
                Ok(p) => parts_of(tl@, *info, leader_key) == Ok::<_, CandidateError>(
                    (p.slot, p.parent_id, p.block@),
                ) && (p.block@ is Empty ==> p.parent_id is Some),
                Err(e) => parts_of(tl@, *info, leader_key) == Err::<
                    (SlotIndex, Option<RawCandidateId>, CandidateBlockView),
                    _,
                >(e),
            },
    {
        let parent_id: Option<RawCandidateId> = match Self::extract_parent(tl) {
            Ok(p) => p,
            Err(e) => {
                return Err(e);
            },
        };
        let block: CandidateBlockData = match Self::extract_block_data(tl, info, leader_key) {
            Ok(b) => b,
            Err(e) => {
                return Err(e);
            },
        };
        if block.is_empty() && parent_id.is_none() {
            return Err(CandidateError::EmptyWithoutParent);
        }
        let raw_slot: i32 = tl.slot();
        if raw_slot < 0 {
            return Err(CandidateError::NegativeSlot(raw_slot));
        }
        Ok(CandidateParts { slot: SlotIndex(raw_slot as u32), parent_id, block })
    }

    /// The candidate that travels as `tl`.
    ///
    /// `info`, `hash` and `signature_valid` are what decoding the block bytes,
    /// hashing the identifier's input and verifying the signature gave.
    pub fn from_tl(
        tl: &CandidateData,
        info: &BlockInfoOutcome,
        leader: ValidatorIndex,
        leader_key: UInt256,
        hash: UInt256,
        signature_valid: bool,
    ) -> (r: Result<RawCandidate, CandidateError>)
        ensures
            match r {
                Ok(c) => candidate_of(tl@, *info, leader, leader_key, hash, signature_valid)
                    == Ok::<_, CandidateError>(c@) && c@.wf(),
                Err(e) => candidate_of(tl@, *info, leader, leader_key, hash, signature_valid)
                    == Err::<RawCandidateView, _>(e),
            },
    {
        match Self::prepare(tl, info, leader_key) {
            Err(e) => Err(e),
            Ok(parts) => {
                if !signature_valid {
                    return Err(CandidateError::InvalidSignature);
                }
                Ok(
                    RawCandidate {
                        id: RawCandidateId { slot: parts.slot, hash },
                        parent_id: parts.parent_id,
                        leader,
                        block: parts.block,
                        signature: tl.signature().clone(),
                    },
                )
            },
        }
    }

    /// The parent that a travelling candidate names.
    pub fn extract_parent(tl: &CandidateData) -> (r: Result<Option<RawCandidateId>, CandidateError>)
        ensures
            r == parent_of(tl@),
    {
        match tl.parent() {
            None => Ok(None),
            Some(id) => {
                if id.slot < 0 {
                    Err(CandidateError::NegativeParentSlot(id.slot))
                } else {
                    Ok(Some(RawCandidateId { slot: SlotIndex(id.slot as u32), hash: id.hash }))
                }
            },
        }
    }

    /// The block data that a travelling candidate carries.
    pub fn extract_block_data(
        tl: &CandidateData,
        info: &BlockInfoOutcome,
        leader_key: UInt256,
    ) -> (r: Result<CandidateBlockData, CandidateError>)
        ensures
            match r {
                Ok(b) => block_data_of(tl@, *info, leader_key) == Ok::<_, CandidateError>(b@),
                Err(e) => block_data_of(tl@, *info, leader_key) == Err::<CandidateBlockView, _>(e),
            },
    {
        match tl {
            CandidateData::Empty { block, .. } => Ok(CandidateBlockData::Empty(*block)),
            CandidateData::Block { candidate, .. } => {
                if candidate.len() == 0 {
                    return Err(CandidateError::EmptyCandidateBytes);
                }
                match info {
                    BlockInfoOutcome::Unreadable => Err(CandidateError::UnreadableBlock),
                    BlockInfoOutcome::Absent => Err(CandidateError::MissingBlockInfo),
                    BlockInfoOutcome::Present(b) => Ok(
                        CandidateBlockData::NonEmpty(
                            BlockCandidate {
                                id: b.block_id,
                                collated_file_hash: b.collated_file_hash,
                                data: b.data.clone(),
                                collated_data: b.collated_data.clone(),
                                creator: leader_key,
                            },
                        ),
                    ),
                }
            },
        }
    }

    /// The candidate as it travels; `candidate_bytes` are the serialized bytes
    /// of the candidate's own block and are left aside if it has none.
    pub fn serialize(&self, candidate_bytes: Vec<u8>) -> (r: Result<CandidateData, CandidateError>)
        ensures
            match r {
                Ok(tl) => travelling(self@, candidate_bytes@) == Ok::<_, CandidateError>(tl@),
                Err(e) => travelling(self@, candidate_bytes@) == Err::<CandidateDataView, _>(e),
            },
    {
        let slot: i32 = self.id.slot.0 as i32;
        let signature: Vec<u8> = self.signature.clone();
        match &self.block {
            CandidateBlockData::Empty(block) => match &self.parent_id {
                Some(p) => Ok(
                    CandidateData::Empty {
                        slot,
                        parent: WireCandidateId::encode(p),
                        block: *block,
                        signature,
                    },
                ),
                None => Err(CandidateError::EmptyWithoutParent),
            },
            CandidateBlockData::NonEmpty(_) => {
                let parent: Option<WireCandidateId> = match &self.parent_id {
                    Some(p) => Some(WireCandidateId::encode(p)),
                    None => None,
                };
                Ok(CandidateData::Block { slot, candidate: candidate_bytes, parent, signature })
            },
        }
    }

    /// The signed candidate with `block` in `slot`.
    ///
    /// `hash` and `signature` are what hashing and signing the identifier gave;
    /// without a signature there is no candidate.
    pub fn create_and_sign(
        slot: SlotIndex,
        block: BlockCandidate,
        parent: Option<RawCandidateId>,
        leader_idx: ValidatorIndex,
        hash: UInt256,
        signature: Option<Vec<u8>>,
    ) -> (r: Option<RawCandidate>)
        ensures
            r is Some <==> signature is Some,
            r matches Some(c) ==> c@ == (RawCandidateView {
                id: RawCandidateId { slot, hash },
                parent_id: parent,
                leader: leader_idx,
                block: CandidateBlockView::NonEmpty(block@),
                signature: signature->Some_0@,
            }),
    {
        match signature {
            Some(s) => Some(
                RawCandidate::new(RawCandidateId { slot, hash }, parent, leader_idx, block, s),
            ),
            None => None,
        }
    }

    /// The signed candidate that re-signs `referenced_block` in `slot`.
    pub fn create_empty_and_sign(
        slot: SlotIndex,
        parent: RawCandidateId,
        referenced_block: BlockIdExt,
        leader_idx: ValidatorIndex,
        hash: UInt256,
        signature: Option<Vec<u8>>,
    ) -> (r: Option<RawCandidate>)
        ensures
            r is Some <==> signature is Some,
            r matches Some(c) ==> c@ == (RawCandidateView {
                id: RawCandidateId { slot, hash },
                parent_id: Some(parent),
                leader: leader_idx,
                block: CandidateBlockView::Empty(referenced_block),
                signature: signature->Some_0@,
            }),
    {
        match signature {
            Some(s) => Some(
                RawCandidate::new_empty(
                    RawCandidateId { slot, hash },
                    parent,
                    leader_idx,
                    referenced_block,
                    s,
                ),
            ),
            None => None,
        }
    }
}

/// How a candidate travels.
pub open spec fn travelling(raw: RawCandidateView, candidate_bytes: Seq<u8>) -> Result<
    CandidateDataView,
    CandidateError,
> {
    match raw.block {
        CandidateBlockView::Empty(block) => match raw.parent_id {
            Some(p) => Ok(
                CandidateDataView::Empty {
                    slot: raw.id.slot.0 as i32,
                    parent: WireCandidateId::encoded(p),
                    block,
                    signature: raw.signature,
                },
            ),
            None => Err(CandidateError::EmptyWithoutParent),
        },
        CandidateBlockView::NonEmpty(_) => Ok(
            CandidateDataView::Block {
                slot: raw.id.slot.0 as i32,
                candidate: candidate_bytes,
                parent: match raw.parent_id {
                    Some(p) => Some(WireCandidateId::encoded(p)),
                    None => None,
                },
                signature: raw.signature,
            },
        ),
    }
}

/// A candidate with its parent resolved.
#[derive(Debug)]
pub struct Candidate {
    /// Identifier with the candidate's block.
    pub id: CandidateId,
    /// Resolved parent.
    pub parent_id: Option<CandidateId>,
    /// Leader that made the candidate.
    pub leader: ValidatorIndex,
    /// The candidate's own block, if it has one.
    pub block: Option<BlockCandidate>,
    /// The leader's signature.
    pub signature: Vec<u8>,
}

/// The contents of a [`Candidate`].
pub struct CandidateView {
    pub id: CandidateId,
    pub parent_id: Option<CandidateId>,
    pub leader: ValidatorIndex,
    pub block: Option<BlockCandidateView>,
    pub signature: Seq<u8>,
}

impl CandidateView {
    /// The identifier names the candidate's own block; a candidate without one
    /// has a parent.
    pub open spec fn wf(self) -> bool {
        match self.block {
            Some(b) => b.id == self.id.block,
            None => self.parent_id is Some,
        }
    }
}

impl View for Candidate {
    type V = CandidateView;

    open spec fn view(&self) -> CandidateView {
        CandidateView {
            id: self.id,
            parent_id: self.parent_id,
            leader: self.leader,
            block: match self.block {
                Some(b) => Some(b@),
                None => None,
            },
            signature: self.signature@,
        }
    }
}

/// `raw` resolved against `parent`.
pub open spec fn resolved(raw: RawCandidateView, parent: Option<&CandidateId>) -> CandidateView {
    CandidateView {
        id: CandidateId { slot: raw.id.slot, hash: raw.id.hash, block: raw.block.block_id() },
        parent_id: match parent {
            Some(p) => Some(*p),
            None => match raw.parent_id {
                Some(p) => Some(
                    CandidateId { slot: p.slot, hash: p.hash, block: BlockIdExt::placeholder() },
                ),
                None => None,
            },
        },
        leader: raw.leader,
        block: match raw.block {
            CandidateBlockView::Empty(_) => None,
            CandidateBlockView::NonEmpty(b) => Some(b),
        },
        signature: raw.signature,
    }
}

/// `c` without the blocks of its identifiers.
pub open spec fn unresolved(c: CandidateView) -> RawCandidateView {
    RawCandidateView {
        id: c.id.raw(),
        parent_id: match c.parent_id {
            Some(p) => Some(p.raw()),
            None => None,
        },
        leader: c.leader,
        block: match c.block {
            Some(b) => CandidateBlockView::NonEmpty(b),
            None => CandidateBlockView::Empty(c.id.block),
        },
        signature: c.signature,
    }
}

impl Candidate {
    /// The candidate with the given parts.
    pub fn new(
        id: CandidateId,
        parent_id: Option<CandidateId>,
        leader: ValidatorIndex,
        block: Option<BlockCandidate>,
        signature: Vec<u8>,
    ) -> (r: Self)
        requires
            match block {
                Some(b) => b.id == id.block,
                None => parent_id is Some,
            },
        ensures
            r@ == (CandidateView {
                id,
                parent_id,
                leader,
                block: match block {
                    Some(b) => Some(b@),
                    None => None,
                },
                signature: signature@,
            }),
            r@.wf(),
    {
        Candidate { id, parent_id, leader, block, signature }
    }

    /// Whether the candidate has no block of its own.
    pub fn is_empty(&self) -> (r: bool)
        ensures
            r == (self@.block is None),
    {
        self.block.is_none()
    }

    /// The candidate without the blocks of its identifiers.
    pub fn to_raw(&self) -> (r: RawCandidate)
        ensures
            r@ == unresolved(self@),
    {
        let block: CandidateBlockData = match &self.block {
            Some(b) => CandidateBlockData::NonEmpty(b.duplicate()),
            None => CandidateBlockData::Empty(self.id.block),
        };
        let parent_id: Option<RawCandidateId> = match &self.parent_id {
            Some(p) => Some(p.to_raw()),
            None => None,
        };
        RawCandidate {
            id: self.id.to_raw(),
            parent_id,
            leader: self.leader,
            block,
            signature: self.signature.clone(),
        }
    }
}

/// Resolving a candidate without an explicit parent and forgetting the blocks
/// again gives the candidate back.
pub proof fn resolving_loses_nothing(raw: RawCandidateView)
    ensures
        unresolved(resolved(raw, None)) == raw,
{
}

/// A resolved candidate comes back from its raw form, resolved against the
/// same parent.
pub proof fn resolving_restores(c: CandidateView)
    requires
        c.wf(),
        c.parent_id is Some,
    ensures
        resolved(unresolved(c), Some(&c.parent_id->Some_0)) == c,
{
}

/// A well-formed candidate whose slots fit the wire comes back from how it
/// travels, once its bytes decode to its block and its hash and signature
/// check out.
pub proof fn travelling_loses_nothing(
    raw: RawCandidateView,
    bytes: Seq<u8>,
    info: BlockInfoOutcome,
    leader_key: UInt256,
)
    requires
        raw.wf(),
        raw.id.slot.0 <= i32::MAX,
        raw.parent_id matches Some(p) ==> p.slot.0 <= i32::MAX,
        raw.block matches CandidateBlockView::NonEmpty(b) ==> {
            &&& bytes.len() > 0
            &&& b.creator == leader_key
            &&& info matches BlockInfoOutcome::Present(i)
            &&& i.block_id == b.id
            &&& i.collated_file_hash == b.collated_file_hash
            &&& i.data@ == b.data
            &&& i.collated_data@ == b.collated_data
        },
    ensures
        travelling(raw, bytes) is Ok,
        candidate_of(
            travelling(raw, bytes)->Ok_0,
            info,
            raw.leader,
            leader_key,
            raw.id.hash,
            true,
        ) == Ok::<_, CandidateError>(raw),
{
}

} // verus!
