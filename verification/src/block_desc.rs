//! Building the candidates of the local leader.

use vstd::prelude::*;

use crate::block::{CandidateHashInput, CandidateParentInfo, RawCandidateId, SlotIndex, ValidatorIndex};
use crate::candidate::{BlockCandidate, CandidateData, CandidateDataView, WireCandidateId};
use crate::chain::{BlockIdExt, UInt256};
use crate::collation::{CollatedBlock, CollationInputs};
use crate::collation_controller::{CollationController, CollationView};
use crate::session_description::SessionDescription;

verus! {

/// A candidate that was built and signed.
#[derive(Debug)]
pub struct GeneratedBlockDesc {
    /// The candidate's block.
    pub block_id_ext: BlockIdExt,
    /// The block itself, if the candidate has one of its own.
    pub block_candidate: Option<BlockCandidate>,
    /// Hash of the candidate's identifier.
    pub candidate_hash: UInt256,
    /// The candidate as it travels.
    pub tl_candidate_data: CandidateData,
    /// The leader's signature.
    pub signature: Vec<u8>,
    /// When the block was generated, in milliseconds, if known.
    pub gen_utime_ms: Option<u64>,
}

/// Hashes of the data of a block.
#[derive(Clone, Copy, Debug, PartialEq, Eq, Structural)]
pub struct PayloadHash {
    /// Hash of the data in canonical form, if it has one.
    pub canonical: Option<UInt256>,
    /// Hash of the bytes as they are.
    pub raw: UInt256,
    /// File hash of the data.
    pub file_hash: UInt256,
}

impl PayloadHash {
    /// The hash that identifies the data: that of its canonical form, if any.
    pub open spec fn identifying(self) -> UInt256 {
        match self.canonical {
            Some(hash) => hash,
            None => self.raw,
        }
    }

    /// The hash that identifies the data: that of its canonical form, if any.
    pub fn get_identifying(&self) -> (r: UInt256)
        ensures
            r == self.identifying(),
    {
        match self.canonical {
            Some(hash) => hash,
            None => self.raw,
        }
    }
}

/// What is computed from the data of a block before its candidate is built.
#[derive(Clone, Copy, Debug, PartialEq, Eq, Structural)]
pub struct PayloadInfo {
    pub data: PayloadHash,
    pub collated_data: PayloadHash,
    /// Public key of the local validator.
    pub creator: UInt256,
    /// Generation time in the collated data, in milliseconds, if it says so.
    pub gen_utime_ms: Option<u64>,
}

/// Why a candidate cannot be built.
#[derive(Clone, Copy, Debug, PartialEq, Eq, Structural)]
pub enum BlockDescError {
    /// The block or its collated data is too large.
    TooLarge { data: usize, collated_data: usize },
    /// The block of the parent is not known.
    ParentUnresolved(CandidateParentInfo),
    /// The block has another seqno than the one after its parent.
    SeqnoMismatch { candidate: u32, expected: u64 },
    /// Signing failed.
    SigningFailed,
    /// Packing the block failed.
    PackingFailed,
    /// There is no parent whose block could be signed again.
    EmptyWithoutParent,
}

/// The parent of a candidate as it stands on the wire.
pub open spec fn wire_parent(parent: Option<CandidateParentInfo>) -> Option<WireCandidateId> {
    match parent {
        Some(p) => Some(WireCandidateId::encoded(p.id())),
        None => None,
    }
}

/// The parent of a candidate by its identifier.
pub open spec fn parent_id(parent: Option<CandidateParentInfo>) -> Option<RawCandidateId> {
    match parent {
        Some(p) => Some(p.id()),
        None => None,
    }
}

/// Why `candidate` cannot follow `parent`, or else its seqno.
pub open spec fn checked_seqno(
    s: CollationView,
    inp: CollationInputs,
    candidate: CollatedBlock,
    parent: Option<CandidateParentInfo>,
) -> Result<u32, BlockDescError> {
    if candidate.data@.len() > inp.opts.max_block_size || candidate.collated_data@.len()
        > inp.opts.max_collated_data_size {
        Err(
            BlockDescError::TooLarge {
                data: candidate.data@.len() as usize,
                collated_data: candidate.collated_data@.len() as usize,
            },
        )
    } else {
        let expected: Result<int, BlockDescError> = match parent {
            None => Ok(inp.desc.first_seqno() as int),
            Some(p) => match s.resolve_parent(inp, p) {
                None => Err(BlockDescError::ParentUnresolved(p)),
                Some(block) => Ok(block.seq_no + 1),
            },
        };
        match expected {
            Err(e) => Err(e),
            Ok(n) => if candidate.id.seq_no == n {
                Ok(candidate.id.seq_no)
            } else {
                Err(
                    BlockDescError::SeqnoMismatch {
                        candidate: candidate.id.seq_no,
                        expected: n as u64,
                    },
                )
            },
        }
    }
}

/// The block of a candidate with the given file hash.
pub open spec fn own_block(
    desc: SessionDescription,
    candidate: CollatedBlock,
    file_hash: UInt256,
) -> BlockIdExt {
    BlockIdExt {
        shard_id: desc.shard_ident(),
        seq_no: candidate.id.seq_no,
        root_hash: candidate.id.root_hash,
        file_hash,
    }
}

/// What the hash of a candidate with a block of its own is computed from.
pub open spec fn normal_hash_input(
    desc: SessionDescription,
    candidate: CollatedBlock,
    parent: Option<CandidateParentInfo>,
    payload: PayloadInfo,
) -> CandidateHashInput {
    CandidateHashInput::Ordinary {
        block: Some(own_block(desc, candidate, payload.data.identifying())),
        collated_file_hash: Some(payload.collated_data.identifying()),
        parent: parent_id(parent),
    }
}

/// Whether `d` describes a candidate with a block of its own.
pub open spec fn is_normal_desc(
    d: GeneratedBlockDesc,
    desc: SessionDescription,
    slot: SlotIndex,
    candidate: CollatedBlock,
    parent: Option<CandidateParentInfo>,
    payload: PayloadInfo,
    packed: Seq<u8>,
) -> bool {
    let block = own_block(desc, candidate, payload.data.file_hash);
    &&& d.block_id_ext == block
    &&& d.block_candidate is Some
    &&& d.block_candidate->Some_0@ == (crate::candidate::BlockCandidateView {
        id: block,
        collated_file_hash: payload.collated_data.file_hash,
        data: candidate.data@,
        collated_data: candidate.collated_data@,
        creator: payload.creator,
    })
    &&& d.tl_candidate_data@ == (CandidateDataView::Block {
        slot: slot.0 as i32,
        candidate: packed,
        parent: wire_parent(parent),
        signature: d.signature@,
    })
    &&& d.gen_utime_ms == payload.gen_utime_ms
}

/// Whether `d` describes a candidate that signs the block of its parent again.
pub open spec fn is_empty_desc(
    d: GeneratedBlockDesc,
    slot: SlotIndex,
    parent: CandidateParentInfo,
    parent_block_id: BlockIdExt,
) -> bool {
    &&& d.block_id_ext == parent_block_id
    &&& d.block_candidate is None
    &&& d.tl_candidate_data@ == (CandidateDataView::Empty {
        slot: slot.0 as i32,
        parent: WireCandidateId::encoded(parent.id()),
        block: parent_block_id,
        signature: d.signature@,
    })
    &&& d.gen_utime_ms is None
}

/// What the hash of a new candidate was computed from, to be stored.
#[derive(Debug)]
pub struct CandidateInfo {
    pub candidate_hash: UInt256,
    pub leader_idx: ValidatorIndex,
    pub hash_data: CandidateHashInput,
    pub signature: Vec<u8>,
}

impl GeneratedBlockDesc {
    /// Whether it is known what the candidate's hash was computed from.
    pub open spec fn has_info(self, parent: Option<CandidateParentInfo>, is_empty: bool) -> bool {
        if is_empty {
            parent is Some
        } else {
            self.block_candidate is Some
        }
    }

    /// What is stored of the candidate, if it has it.
    pub open spec fn info(self, parent: Option<CandidateParentInfo>, is_empty: bool) -> CandidateHashInput {
        if is_empty {
            CandidateHashInput::Empty { block: self.block_id_ext, parent: parent->Some_0.id() }
        } else {
            CandidateHashInput::Ordinary {
                block: Some(self.block_id_ext),
                collated_file_hash: Some(self.block_candidate->Some_0.collated_file_hash),
                parent: parent_id(parent),
            }
        }
    }

    /// Whether it is known what the candidate's hash was computed from.
    pub fn is_info_known(&self, parent: &Option<CandidateParentInfo>, is_empty: bool) -> (r: bool)
        ensures
            r == self.has_info(*parent, is_empty),
    {
        if is_empty {
            parent.is_some()
        } else {
            self.block_candidate.is_some()
        }
    }

    /// What is stored of the candidate: for an empty one this needs a parent,
    /// for another one its block.
    pub fn build_candidate_info_for_db(
        &self,
        parent: &Option<CandidateParentInfo>,
        is_empty: bool,
        desc: &SessionDescription,
    ) -> (r: Option<CandidateInfo>)
        ensures
            r is Some <==> self.has_info(*parent, is_empty),
            r matches Some(info) ==> {
                &&& info.candidate_hash == self.candidate_hash
                &&& info.leader_idx == desc.local()
                &&& info.hash_data == self.info(*parent, is_empty)
                &&& info.signature@ == self.signature@
            },
    {
        let parent_raw: Option<RawCandidateId> = match parent {
            Some(p) => Some(p.to_id()),
            None => None,
        };
        let hash_data: CandidateHashInput = if is_empty {
            match parent_raw {
                Some(p) => CandidateHashInput::Empty { block: self.block_id_ext, parent: p },
                None => {
                    return None;
                },
            }
        } else {
            match &self.block_candidate {
                Some(block) => CandidateHashInput::Ordinary {
                    block: Some(self.block_id_ext),
                    collated_file_hash: Some(block.collated_file_hash),
                    parent: parent_raw,
                },
                None => {
                    return None;
                },
            }
        };
        Some(
            CandidateInfo {
                candidate_hash: self.candidate_hash,
                leader_idx: desc.get_self_idx(),
                hash_data,
                signature: self.signature.clone(),
            },
        )
    }
}

impl CollationController {
    fn check_seqno(
        &self,
        inputs: &CollationInputs,
        candidate: &CollatedBlock,
        parent: &Option<CandidateParentInfo>,
    ) -> (r: Result<u32, BlockDescError>)
        ensures
            r == checked_seqno(self@, *inputs, *candidate, *parent),
    {
        if candidate.data.len() > inputs.opts.max_block_size || candidate.collated_data.len()
            > inputs.opts.max_collated_data_size {
            return Err(
                BlockDescError::TooLarge {
                    data: candidate.data.len(),
                    collated_data: candidate.collated_data.len(),
                },
            );
        }
        let expected: u64 = match parent {
            None => inputs.desc.get_initial_block_seqno() as u64,
            Some(p) => match self.resolve_parent_block_id(p, inputs) {
                None => {
                    return Err(BlockDescError::ParentUnresolved(*p));
                },
                Some(block) => block.seq_no as u64 + 1,
            },
        };
        if candidate.id.seq_no as u64 != expected {
            return Err(
                BlockDescError::SeqnoMismatch { candidate: candidate.id.seq_no, expected },
            );
        }
        Ok(candidate.id.seq_no)
    }

    /// Builds the candidate in `slot` with a block of its own.
    ///
    /// `hash` hashes the identifier's input, `sign` signs the identifier and
    /// `pack` compresses and serializes the block with its seqno and root hash.
    pub fn create_normal_block_desc<
        H: FnOnce(&CandidateHashInput) -> UInt256,
        S: FnOnce(SlotIndex, &UInt256) -> Option<Vec<u8>>,
        P: FnOnce(i32, &UInt256) -> Option<Vec<u8>>,
    >(
        &self,
        inputs: &CollationInputs,
        slot: SlotIndex,
        candidate: &CollatedBlock,
        parent: &Option<CandidateParentInfo>,
        payload: &PayloadInfo,
        hash: H,
        sign: S,
        pack: P,
    ) -> (r: Result<GeneratedBlockDesc, BlockDescError>)
        requires
            checked_seqno(self@, *inputs, *candidate, *parent) is Ok ==> call_requires(
                hash,
                (&normal_hash_input(*inputs.desc, *candidate, *parent, *payload),),
            ),
            forall|h: &UInt256|
                checked_seqno(self@, *inputs, *candidate, *parent) is Ok && call_ensures(
                    hash,
                    (&normal_hash_input(*inputs.desc, *candidate, *parent, *payload),),
                    *h,
                ) ==> #[trigger] call_requires(sign, (slot, h)),
            forall|h: &UInt256, signature: Option<Vec<u8>>|
                checked_seqno(self@, *inputs, *candidate, *parent) is Ok && call_ensures(
                    hash,
                    (&normal_hash_input(*inputs.desc, *candidate, *parent, *payload),),
                    *h,
                ) && #[trigger] call_ensures(sign, (slot, h), signature) && signature is Some
                    ==> call_requires(
                    pack,
                    (candidate.id.seq_no as i32, &candidate.id.root_hash),
                ),
        ensures
            match checked_seqno(self@, *inputs, *candidate, *parent) {
                Err(e) => r == Err::<GeneratedBlockDesc, BlockDescError>(e),
                Ok(seqno) => exists|h: UInt256, signature: Option<Vec<u8>>|
                    {
                        let input = normal_hash_input(*inputs.desc, *candidate, *parent, *payload);
                        &&& call_ensures(hash, (&input,), h)
                        &&& #[trigger] call_ensures(sign, (slot, &h), signature)
                        &&& signature is None ==> r == Err::<GeneratedBlockDesc, BlockDescError>(
                            BlockDescError::SigningFailed,
                        )
                        &&& signature is Some ==> exists|packed: Option<Vec<u8>>|
                            {
                                &&& #[trigger] call_ensures(
                                    pack,
                                    (seqno as i32, &candidate.id.root_hash),
                                    packed,
                                )
                                &&& match packed {
                                    None => r == Err::<GeneratedBlockDesc, BlockDescError>(
                                        BlockDescError::PackingFailed,
                                    ),
                                    Some(bytes) => {
                                        &&& r is Ok
                                        &&& r->Ok_0.candidate_hash == h
                                        &&& r->Ok_0.signature@ == signature->Some_0@
                                        &&& is_normal_desc(
                                            r->Ok_0,
                                            *inputs.desc,
                                            slot,
                                            *candidate,
                                            *parent,
                                            *payload,
                                            bytes@,
                                        )
                                    },
                                }
                            }
                    },
            },
    {
        let seqno: u32 = match self.check_seqno(inputs, candidate, parent) {
            Err(e) => {
                return Err(e);
            },
            Ok(n) => n,
        };
        let shard_id = *inputs.desc.get_shard();
        let root_hash: UInt256 = candidate.id.root_hash;
        let block_id: BlockIdExt = BlockIdExt {
            shard_id,
            seq_no: seqno,
            root_hash,
            file_hash: payload.data.get_identifying(),
        };
        let parent_raw: Option<RawCandidateId> = match parent {
            Some(p) => Some(p.to_id()),
            None => None,
        };
        let input: CandidateHashInput = CandidateHashInput::Ordinary {
            block: Some(block_id),
            collated_file_hash: Some(payload.collated_data.get_identifying()),
            parent: parent_raw,
        };
        let candidate_hash: UInt256 = hash(&input);
        let signed: Option<Vec<u8>> = sign(slot, &candidate_hash);
        assert(call_ensures(sign, (slot, &candidate_hash), signed));
        let signature: Vec<u8> = match signed {
            Some(s) => s,
            None => {
                return Err(BlockDescError::SigningFailed);
            },
        };
        let packed: Option<Vec<u8>> = pack(seqno as i32, &root_hash);
        assert(call_ensures(pack, (seqno as i32, &root_hash), packed));
        let candidate_bytes: Vec<u8> = match packed {
            Some(bytes) => bytes,
            None => {
                return Err(BlockDescError::PackingFailed);
            },
        };
        let parent_wire: Option<WireCandidateId> = match &parent_raw {
            Some(p) => Some(WireCandidateId::encode(p)),
            None => None,
        };
        let tl_candidate_data = CandidateData::Block {
            slot: slot.0 as i32,
            candidate: candidate_bytes,
            parent: parent_wire,
            signature: signature.clone(),
        };
        let block_id_ext: BlockIdExt = BlockIdExt {
            shard_id,
            seq_no: seqno,
            root_hash,
            file_hash: payload.data.file_hash,
        };
        let block_candidate = BlockCandidate {
            id: block_id_ext,
            collated_file_hash: payload.collated_data.file_hash,
            data: candidate.data.clone(),
            collated_data: candidate.collated_data.clone(),
            creator: payload.creator,
        };
        Ok(
            GeneratedBlockDesc {
                block_id_ext,
                block_candidate: Some(block_candidate),
                candidate_hash,
                tl_candidate_data,
                signature,
                gen_utime_ms: payload.gen_utime_ms,
            },
        )
    }

    /// Builds the candidate in `slot` that signs the block of its parent again.
    ///
    /// `hash` hashes the identifier's input and `sign` signs the identifier.
    pub fn create_empty_block_desc<
        H: FnOnce(&CandidateHashInput) -> UInt256,
        S: FnOnce(SlotIndex, &UInt256) -> Option<Vec<u8>>,
    >(
        slot: SlotIndex,
        parent_block_id: &BlockIdExt,
        parent: &Option<CandidateParentInfo>,
        hash: H,
        sign: S,
    ) -> (r: Result<GeneratedBlockDesc, BlockDescError>)
        requires
            *parent is Some ==> call_requires(
                hash,
                (&CandidateHashInput::Empty {
                    block: *parent_block_id,
                    parent: parent->Some_0.id(),
                },),
            ),
            forall|h: &UInt256|
                *parent is Some && call_ensures(
                    hash,
                    (&CandidateHashInput::Empty {
                        block: *parent_block_id,
                        parent: parent->Some_0.id(),
                    },),
                    *h,
                ) ==> #[trigger] call_requires(sign, (slot, h)),
        ensures
            match *parent {
                None => r == Err::<GeneratedBlockDesc, BlockDescError>(
                    BlockDescError::EmptyWithoutParent,
                ),
                Some(p) => exists|h: UInt256, signature: Option<Vec<u8>>|
                    {
                        let input = CandidateHashInput::Empty {
                            block: *parent_block_id,
                            parent: p.id(),
                        };
                        &&& call_ensures(hash, (&input,), h)
                        &&& #[trigger] call_ensures(sign, (slot, &h), signature)
                        &&& match signature {
                            None => r == Err::<GeneratedBlockDesc, BlockDescError>(
                                BlockDescError::SigningFailed,
                            ),
                            Some(bytes) => {
                                &&& r is Ok
                                &&& r->Ok_0.candidate_hash == h
                                &&& r->Ok_0.signature@ == bytes@
                                &&& is_empty_desc(r->Ok_0, slot, p, *parent_block_id)
                            },
                        }
                    },
            },
    {
        let p: RawCandidateId = match parent {
            Some(p) => p.to_id(),
            None => {
                return Err(BlockDescError::EmptyWithoutParent);
            },
        };
        let input: CandidateHashInput = RawCandidateId::create_empty(parent_block_id, &p);
        let candidate_hash: UInt256 = hash(&input);
        let signed: Option<Vec<u8>> = sign(slot, &candidate_hash);
        assert(call_ensures(sign, (slot, &candidate_hash), signed));
        let signature: Vec<u8> = match signed {
            Some(s) => s,
            None => {
                return Err(BlockDescError::SigningFailed);
            },
        };
        let tl_candidate_data = CandidateData::Empty {
            slot: slot.0 as i32,
            parent: WireCandidateId::encode(&p),
            block: *parent_block_id,
            signature: signature.clone(),
        };
        Ok(
            GeneratedBlockDesc {
                block_id_ext: *parent_block_id,
                block_candidate: None,
                candidate_hash,
                tl_candidate_data,
                signature,
                gen_utime_ms: None,
            },
        )
    }
}

/// A candidate that is built always knows what its hash was computed from; so
/// what is stored of it is never left out.
pub proof fn built_candidates_have_info(
    d: GeneratedBlockDesc,
    desc: SessionDescription,
    slot: SlotIndex,
    candidate: CollatedBlock,
    parent: Option<CandidateParentInfo>,
    payload: PayloadInfo,
    packed: Seq<u8>,
    parent_block_id: BlockIdExt,
)
    ensures
        is_normal_desc(d, desc, slot, candidate, parent, payload, packed) ==> d.has_info(
            parent,
            false,
        ),
        parent is Some && is_empty_desc(d, slot, parent->Some_0, parent_block_id) ==> d.has_info(
            parent,
            true,
        ),
{
}

/// An empty candidate keeps the seqno of its parent's block; a candidate with
/// a block of its own follows it.
pub proof fn seqnos_follow_parents(
    s: CollationView,
    inp: CollationInputs,
    slot: SlotIndex,
    candidate: CollatedBlock,
    parent: CandidateParentInfo,
    payload: PayloadInfo,
    packed: Seq<u8>,
    d: GeneratedBlockDesc,
    block: BlockIdExt,
)
    requires
        s.resolve_parent(inp, parent) == Some(block),
    ensures
        is_empty_desc(d, slot, parent, block) ==> d.block_id_ext.seq_no == block.seq_no,
        checked_seqno(s, inp, candidate, Some(parent)) is Ok && is_normal_desc(
            d,
            *inp.desc,
            slot,
            candidate,
            Some(parent),
            payload,
            packed,
        ) ==> d.block_id_ext.seq_no == block.seq_no + 1,
{
}

/// A candidate is received as it was built: where its slots fit on the wire, what
/// travels names the slot, the parent, the block and the signature that it was built
/// with; and where file hashes identify the data, the receiver computes its
/// identifier's hash from the very input that its maker did.
pub proof fn candidates_are_received_as_built(
    d: GeneratedBlockDesc,
    desc: SessionDescription,
    slot: SlotIndex,
    candidate: CollatedBlock,
    parent: Option<CandidateParentInfo>,
    payload: PayloadInfo,
    packed: Seq<u8>,
    info: crate::candidate::BlockInfo,
)
    requires
        is_normal_desc(d, desc, slot, candidate, parent, payload, packed),
        slot.0 <= i32::MAX,
        parent matches Some(p) ==> p.slot.0 <= i32::MAX,
        packed.len() > 0,
        info.block_id == d.block_id_ext,
        info.collated_file_hash == d.block_candidate->Some_0.collated_file_hash,
    ensures
        ({
            let parts = crate::candidate::parts_of(
                d.tl_candidate_data@,
                crate::candidate::BlockInfoOutcome::Present(info),
                payload.creator,
            );
            &&& parts is Ok
            &&& parts->Ok_0.0 == slot
            &&& parent is None <==> parts->Ok_0.1 is None
            &&& parent matches Some(p) ==> parts->Ok_0.1 == Some(
                RawCandidateId { slot: p.slot, hash: p.hash },
            )
            &&& parts->Ok_0.2.block_id() == d.block_id_ext
            &&& d.block_id_ext.shard_id == desc.shard_ident()
            &&& d.block_id_ext.seq_no == candidate.id.seq_no
            &&& d.block_id_ext.root_hash == candidate.id.root_hash
            &&& d.block_candidate matches Some(b) && b.data@ == candidate.data@
                && b.collated_data@ == candidate.collated_data@
            &&& d.tl_candidate_data@.signature() == d.signature@
            &&& payload.data.identifying() == payload.data.file_hash
                && payload.collated_data.identifying() == payload.collated_data.file_hash
                ==> crate::candidate::hash_input_of(parts->Ok_0.2, parts->Ok_0.1)
                == normal_hash_input(desc, candidate, parent, payload)
        }),
{
}

/// An empty candidate is received as it was built, and the receiver computes its
/// identifier's hash from the same input, which is also what is stored of it.
pub proof fn empties_are_received_as_built(
    d: GeneratedBlockDesc,
    slot: SlotIndex,
    parent: CandidateParentInfo,
    block: BlockIdExt,
    info: crate::candidate::BlockInfoOutcome,
    key: UInt256,
)
    requires
        is_empty_desc(d, slot, parent, block),
        slot.0 <= i32::MAX,
        parent.slot.0 <= i32::MAX,
    ensures
        ({
            let parts = crate::candidate::parts_of(d.tl_candidate_data@, info, key);
            let id = RawCandidateId { slot: parent.slot, hash: parent.hash };
            &&& parts is Ok
            &&& parts->Ok_0.0 == slot
            &&& parts->Ok_0.1 == Some(id)
            &&& parts->Ok_0.2 is Empty && parts->Ok_0.2.block_id() == block
            &&& crate::candidate::hash_input_of(parts->Ok_0.2, parts->Ok_0.1) == d.info(
                Some(parent),
                true,
            )
            &&& d.info(Some(parent), true) == (CandidateHashInput::Empty { block, parent: id })
        }),
{
}

/// What is stored of a built candidate is what its hash was computed from, where file
/// hashes identify the data.
pub proof fn stored_info_is_what_was_hashed(
    d: GeneratedBlockDesc,
    desc: SessionDescription,
    slot: SlotIndex,
    candidate: CollatedBlock,
    parent: Option<CandidateParentInfo>,
    payload: PayloadInfo,
    packed: Seq<u8>,
)
    requires
        is_normal_desc(d, desc, slot, candidate, parent, payload, packed),
        payload.data.identifying() == payload.data.file_hash,
        payload.collated_data.identifying() == payload.collated_data.file_hash,
    ensures
        d.info(parent, false) == normal_hash_input(desc, candidate, parent, payload),
{
}

/// A collated block can stand in a candidate exactly if it and its collated data are
/// not too large, and it has the session's first seqno, or the one after its parent's
/// block, which must be known; else the reason is given.
pub proof fn fitting_blocks_are_accepted(
    s: CollationView,
    inp: CollationInputs,
    candidate: CollatedBlock,
    parent: Option<CandidateParentInfo>,
)
    ensures
        ({
            let r = checked_seqno(s, inp, candidate, parent);
            let fits = candidate.data@.len() <= inp.opts.max_block_size
                && candidate.collated_data@.len() <= inp.opts.max_collated_data_size;
            let known = parent is None || s.resolve_parent(inp, parent->Some_0) is Some;
            let seqno = match parent {
                None => inp.desc.first_seqno() as int,
                Some(p) => s.resolve_parent(inp, p)->Some_0.seq_no + 1,
            };
            &&& r is Ok <==> fits && known && candidate.id.seq_no == seqno
            &&& r matches Ok(n) ==> n == candidate.id.seq_no
            &&& r matches Err(e) ==> match e {
                BlockDescError::TooLarge { .. } => !fits,
                BlockDescError::ParentUnresolved(p) => fits && !known && parent == Some(p),
                BlockDescError::SeqnoMismatch { candidate: c, expected } => {
                    &&& fits && known
                    &&& c == candidate.id.seq_no && expected == seqno && c != expected
                },
                _ => false,
            }
        }),
{
}

} // verus!
