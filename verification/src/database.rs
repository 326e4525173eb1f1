//! Stored records, and what a session starts from.
//!
//! Reading and writing bytes is left to the caller: entries come in decoded, or
//! as `None` where that failed.

use vstd::prelude::*;

use crate::block::{CandidateHashInput, RawCandidateId, SlotIndex, ValidatorIndex, WindowIndex};
use crate::candidate::WireCandidateId;
use crate::certificate::{travels_as, FinalCert, NotarCert, SkipCert, WireSignature};
use crate::chain::{BlockIdExt, UInt256};
use crate::order::{by_rank, is_sorted, sort_by_rank, sorting_is_stable, Ranked};
use crate::raw_vote::RawVoteData;
use crate::votes::{unsigned, UnsignedVote, Vote};

verus! {

/// Record of a finalized block.
#[derive(Clone, Copy, Debug, PartialEq, Eq, Structural)]
pub struct FinalizedBlockRecord {
    pub candidate_id: RawCandidateId,
    pub block_id: BlockIdExt,
    /// Parent, unless the block is the first one.
    pub parent: Option<RawCandidateId>,
    /// Whether the block has a finalization certificate of its own.
    pub is_final: bool,
}

/// Record of what the hash of a candidate was computed from.
#[derive(Debug)]
pub struct CandidateInfoRecord {
    pub candidate_id: RawCandidateId,
    pub leader_idx: u32,
    pub candidate_hash_data: CandidateHashInput,
    /// The leader's signature.
    pub signature: Vec<u8>,
}

/// Record of a notarization certificate.
#[derive(Debug)]
pub struct NotarCertRecord {
    pub candidate_id: RawCandidateId,
    /// Serialized signatures.
    pub notar_cert_bytes: Vec<u8>,
}

/// Record of a finalization certificate.
#[derive(Debug)]
pub struct FinalCertRecord {
    pub candidate_id: RawCandidateId,
    /// The serialized certificate.
    pub cert_bytes: Vec<u8>,
}

/// Record of a skip certificate.
#[derive(Debug)]
pub struct SkipCertRecord {
    pub slot: SlotIndex,
    /// The serialized certificate.
    pub cert_bytes: Vec<u8>,
}

/// Record of a vote.
#[derive(Debug)]
pub struct VoteRecord {
    /// Hash of the vote.
    pub vote_hash: UInt256,
    /// The serialized vote.
    pub data: Vec<u8>,
    /// The voter.
    pub node_idx: ValidatorIndex,
    /// Place of the vote in the order in which votes were stored.
    pub seqno: i64,
}

impl VoteRecord {
    /// The record of a vote from the validator `source`; its place is given when
    /// it is stored.
    pub fn incoming(vote_hash: UInt256, vote: &RawVoteData, source: ValidatorIndex) -> (r: Self)
        ensures
            r.vote_hash == vote_hash,
            r.data@ == vote@,
            r.node_idx == source,
            r.seqno == 0,
    {
        VoteRecord { vote_hash, data: vote.to_raw_buffer(), node_idx: source, seqno: 0 }
    }
}

/// Record of what was announced of windows.
#[derive(Clone, Copy, Debug, PartialEq, Eq, Structural)]
pub struct PoolStateRecord {
    /// First window that was not announced.
    pub first_nonannounced_window: WindowIndex,
}

impl Default for PoolStateRecord {
    fn default() -> (r: Self)
        ensures
            r.first_nonannounced_window == WindowIndex(0),
    {
        PoolStateRecord { first_nonannounced_window: WindowIndex(0) }
    }
}

/// What a session starts from.
#[derive(Debug)]
pub struct Bootstrap {
    /// Finalized blocks by slot.
    pub finalized_blocks: Vec<FinalizedBlockRecord>,
    pub candidate_infos: Vec<CandidateInfoRecord>,
    pub notar_certs: Vec<NotarCertRecord>,
    pub final_certs: Vec<FinalCertRecord>,
    pub skip_certs: Vec<SkipCertRecord>,
    pub votes: Vec<VoteRecord>,
    pub pool_state: Option<PoolStateRecord>,
    /// Serialized candidates.
    pub candidate_payloads: Vec<(RawCandidateId, Vec<u8>)>,
}

/// What the session's state starts from.
#[derive(Debug)]
pub struct SessionBootstrap {
    pub finalized_blocks: Vec<FinalizedBlockRecord>,
    pub votes: Vec<VoteRecord>,
    pub pool_state: Option<PoolStateRecord>,
}

/// What the receiver's certificates start from.
#[derive(Debug)]
pub struct ReceiverBootstrap {
    pub notar_certs: Vec<NotarCertRecord>,
    pub final_certs: Vec<FinalCertRecord>,
    pub skip_certs: Vec<SkipCertRecord>,
}

impl Bootstrap {
    /// Whether nothing was stored.
    pub open spec fn nothing(self) -> bool {
        &&& self.finalized_blocks@.len() == 0
        &&& self.candidate_infos@.len() == 0
        &&& self.notar_certs@.len() == 0
        &&& self.final_certs@.len() == 0
        &&& self.skip_certs@.len() == 0
        &&& self.votes@.len() == 0
        &&& self.pool_state is None
        &&& self.candidate_payloads@.len() == 0
    }

    /// Hands each part of the session its share.
    pub fn split(self) -> (r: (
        SessionBootstrap,
        ReceiverBootstrap,
        Vec<(RawCandidateId, Vec<u8>)>,
    ))
        ensures
            r.0.finalized_blocks == self.finalized_blocks,
            r.0.votes == self.votes,
            r.0.pool_state == self.pool_state,
            r.1.notar_certs == self.notar_certs,
            r.1.final_certs == self.final_certs,
            r.1.skip_certs == self.skip_certs,
            r.2 == self.candidate_payloads,
    {
        (
            SessionBootstrap {
                finalized_blocks: self.finalized_blocks,
                votes: self.votes,
                pool_state: self.pool_state,
            },
            ReceiverBootstrap {
                notar_certs: self.notar_certs,
                final_certs: self.final_certs,
                skip_certs: self.skip_certs,
            },
            self.candidate_payloads,
        )
    }

    /// Whether nothing was stored.
    pub fn is_empty(&self) -> (r: bool)
        ensures
            r == self.nothing(),
    {
        self.finalized_blocks.len() == 0 && self.candidate_infos.len() == 0
            && self.notar_certs.len() == 0 && self.final_certs.len() == 0
            && self.skip_certs.len() == 0 && self.votes.len() == 0 && self.pool_state.is_none()
            && self.candidate_payloads.len() == 0
    }
}

/// A finalized block as it is stored, next to its candidate.
#[derive(Clone, Copy, Debug, PartialEq, Eq, Structural)]
pub struct StoredFinalizedBlock {
    pub block_id: BlockIdExt,
    pub parent: Option<WireCandidateId>,
    pub is_final: bool,
}

impl FinalizedBlockRecord {
    /// The candidate, under which the record is stored, and the record.
    pub open spec fn stored(self) -> (WireCandidateId, StoredFinalizedBlock) {
        (
            WireCandidateId::encoded(self.candidate_id),
            StoredFinalizedBlock {
                block_id: self.block_id,
                parent: match self.parent {
                    Some(p) => Some(WireCandidateId::encoded(p)),
                    None => None,
                },
                is_final: self.is_final,
            },
        )
    }

    /// The record that was stored under `key`.
    pub open spec fn read(key: WireCandidateId, value: StoredFinalizedBlock) -> FinalizedBlockRecord {
        FinalizedBlockRecord {
            candidate_id: key.decoded(),
            block_id: value.block_id,
            parent: match value.parent {
                Some(p) => Some(p.decoded()),
                None => None,
            },
            is_final: value.is_final,
        }
    }

    /// The candidate, under which the record is stored, and the record.
    pub fn to_stored(&self) -> (r: (WireCandidateId, StoredFinalizedBlock))
        ensures
            r == self.stored(),
    {
        (
            WireCandidateId::encode(&self.candidate_id),
            StoredFinalizedBlock {
                block_id: self.block_id,
                parent: match &self.parent {
                    Some(p) => Some(WireCandidateId::encode(p)),
                    None => None,
                },
                is_final: self.is_final,
            },
        )
    }

    /// The record that was stored under `key`.
    pub fn from_stored(key: &WireCandidateId, value: &StoredFinalizedBlock) -> (r: FinalizedBlockRecord)
        ensures
            r == FinalizedBlockRecord::read(*key, *value),
    {
        FinalizedBlockRecord {
            candidate_id: key.decode(),
            block_id: value.block_id,
            parent: match &value.parent {
                Some(p) => Some(p.decode()),
                None => None,
            },
            is_final: value.is_final,
        }
    }
}

/// What the hash of a candidate was computed from as it is stored, next to the
/// candidate.
#[derive(Debug)]
pub struct StoredCandidateInfo {
    pub leader_id: i32,
    pub candidate_hash_data: CandidateHashInput,
    pub signature: Vec<u8>,
}

impl CandidateInfoRecord {
    /// The candidate, under which the record is stored, and the record.
    pub open spec fn stored(self) -> (WireCandidateId, StoredCandidateInfo) {
        (
            WireCandidateId::encoded(self.candidate_id),
            StoredCandidateInfo {
                leader_id: self.leader_idx as i32,
                candidate_hash_data: self.candidate_hash_data,
                signature: self.signature,
            },
        )
    }

    /// The record that was stored under `key`.
    pub open spec fn read(key: WireCandidateId, value: StoredCandidateInfo) -> CandidateInfoRecord {
        CandidateInfoRecord {
            candidate_id: key.decoded(),
            leader_idx: value.leader_id as u32,
            candidate_hash_data: value.candidate_hash_data,
            signature: value.signature,
        }
    }

    /// The candidate, under which the record is stored, and the record.
    pub fn to_stored(self) -> (r: (WireCandidateId, StoredCandidateInfo))
        ensures
            r == self.stored(),
    {
        (
            WireCandidateId::encode(&self.candidate_id),
            StoredCandidateInfo {
                leader_id: self.leader_idx as i32,
                candidate_hash_data: self.candidate_hash_data,
                signature: self.signature,
            },
        )
    }

    /// The record that was stored under `key`.
    pub fn from_stored(key: &WireCandidateId, value: StoredCandidateInfo) -> (r: CandidateInfoRecord)
        ensures
            r == CandidateInfoRecord::read(*key, value),
    {
        CandidateInfoRecord {
            candidate_id: key.decode(),
            leader_idx: value.leader_id as u32,
            candidate_hash_data: value.candidate_hash_data,
            signature: value.signature,
        }
    }
}

impl PoolStateRecord {
    /// The window as it is stored.
    pub open spec fn stored(self) -> i32 {
        self.first_nonannounced_window.0 as i32
    }

    /// The record with a stored window.
    pub open spec fn read(window: i32) -> PoolStateRecord {
        PoolStateRecord { first_nonannounced_window: WindowIndex(window as u32) }
    }

    /// The window as it is stored.
    pub fn to_stored(&self) -> (r: i32)
        ensures
            r == self.stored(),
    {
        self.first_nonannounced_window.0 as i32
    }

    /// The record with a stored window.
    pub fn from_stored(window: i32) -> (r: PoolStateRecord)
        ensures
            r == PoolStateRecord::read(window),
    {
        PoolStateRecord { first_nonannounced_window: WindowIndex(window as u32) }
    }
}

/// What is stored under the hash of a vote or of a certificate.
#[allow(inconsistent_fields)]
#[derive(Debug)]
pub enum StoredVote {
    Vote { data: Vec<u8>, node_idx: i32, seqno: i64 },
    /// A certificate: what it certifies, and its bytes and those of its
    /// signatures.
    Certificate { vote: Vote, cert_bytes: Vec<u8>, signature_bytes: Vec<u8> },
}

/// A stored vote or certificate.
#[derive(Debug)]
pub enum VoteStorageEntry {
    Vote(VoteRecord),
    NotarCert(NotarCertRecord),
    FinalCert(FinalCertRecord),
    SkipCert(SkipCertRecord),
}

impl VoteStorageEntry {
    /// What was stored under `key`.
    pub open spec fn read(key: UInt256, value: StoredVote) -> VoteStorageEntry {
        match value {
            StoredVote::Vote { data, node_idx, seqno } => VoteStorageEntry::Vote(
                VoteRecord {
                    vote_hash: key,
                    data,
                    node_idx: ValidatorIndex(node_idx as u32),
                    seqno,
                },
            ),
            StoredVote::Certificate { vote, cert_bytes, signature_bytes } => match vote {
                Vote::Notarize(v) => VoteStorageEntry::NotarCert(
                    NotarCertRecord {
                        candidate_id: RawCandidateId { slot: v.slot, hash: v.block_hash },
                        notar_cert_bytes: signature_bytes,
                    },
                ),
                Vote::Finalize(v) => VoteStorageEntry::FinalCert(
                    FinalCertRecord {
                        candidate_id: RawCandidateId { slot: v.slot, hash: v.block_hash },
                        cert_bytes,
                    },
                ),
                Vote::Skip(v) => VoteStorageEntry::SkipCert(
                    SkipCertRecord { slot: v.slot, cert_bytes },
                ),
            },
        }
    }

    /// What was stored under `key`.
    pub fn from_stored(key: &UInt256, value: StoredVote) -> (r: VoteStorageEntry)
        ensures
            r == VoteStorageEntry::read(*key, value),
    {
        match value {
            StoredVote::Vote { data, node_idx, seqno } => VoteStorageEntry::Vote(
                VoteRecord {
                    vote_hash: *key,
                    data,
                    node_idx: ValidatorIndex(node_idx as u32),
                    seqno,
                },
            ),
            StoredVote::Certificate { vote, cert_bytes, signature_bytes } => match vote {
                Vote::Notarize(v) => VoteStorageEntry::NotarCert(
                    NotarCertRecord {
                        candidate_id: RawCandidateId { slot: v.slot, hash: v.block_hash },
                        notar_cert_bytes: signature_bytes,
                    },
                ),
                Vote::Finalize(v) => VoteStorageEntry::FinalCert(
                    FinalCertRecord {
                        candidate_id: RawCandidateId { slot: v.slot, hash: v.block_hash },
                        cert_bytes,
                    },
                ),
                Vote::Skip(v) => VoteStorageEntry::SkipCert(
                    SkipCertRecord { slot: v.slot, cert_bytes },
                ),
            },
        }
    }
}

impl VoteRecord {
    /// The hash, under which the record is stored, and the record.
    pub open spec fn stored(self) -> (UInt256, StoredVote) {
        (
            self.vote_hash,
            StoredVote::Vote {
                data: self.data,
                node_idx: self.node_idx.0 as i32,
                seqno: self.seqno,
            },
        )
    }

    /// The hash, under which the record is stored, and the record.
    pub fn to_stored(self) -> (r: (UInt256, StoredVote))
        ensures
            r == self.stored(),
    {
        (
            self.vote_hash,
            StoredVote::Vote {
                data: self.data,
                node_idx: self.node_idx.0 as i32,
                seqno: self.seqno,
            },
        )
    }
}

impl Ranked for FinalizedBlockRecord {
    /// By slot.
    open spec fn rank(self) -> int {
        self.candidate_id.slot.0 as int
    }

    fn not_after(&self, other: &Self) -> (r: bool) {
        self.candidate_id.slot.0 <= other.candidate_id.slot.0
    }
}

impl Ranked for NotarCertRecord {
    /// By slot.
    open spec fn rank(self) -> int {
        self.candidate_id.slot.0 as int
    }

    fn not_after(&self, other: &Self) -> (r: bool) {
        self.candidate_id.slot.0 <= other.candidate_id.slot.0
    }
}

impl Ranked for FinalCertRecord {
    /// By slot.
    open spec fn rank(self) -> int {
        self.candidate_id.slot.0 as int
    }

    fn not_after(&self, other: &Self) -> (r: bool) {
        self.candidate_id.slot.0 <= other.candidate_id.slot.0
    }
}

impl Ranked for SkipCertRecord {
    /// By slot.
    open spec fn rank(self) -> int {
        self.slot.0 as int
    }

    fn not_after(&self, other: &Self) -> (r: bool) {
        self.slot.0 <= other.slot.0
    }
}

impl Ranked for VoteRecord {
    /// In the order in which votes were stored.
    open spec fn rank(self) -> int {
        self.seqno as int
    }

    fn not_after(&self, other: &Self) -> (r: bool) {
        self.seqno <= other.seqno
    }
}

/// The finalized blocks among `records` that form a chain: from the first one
/// without a parent on, each one whose parent is the last one that was kept.
pub open spec fn chain_of(records: Seq<FinalizedBlockRecord>) -> Seq<FinalizedBlockRecord>
    decreases records.len(),
{
    if records.len() == 0 {
        records
    } else {
        let before = chain_of(records.drop_last());
        if records.last().parent == link_after(before) {
            before.push(records.last())
        } else {
            before
        }
    }
}

/// The parent of what comes after a chain.
pub open spec fn link_after(chain: Seq<FinalizedBlockRecord>) -> Option<RawCandidateId> {
    if chain.len() == 0 {
        None
    } else {
        Some(chain.last().candidate_id)
    }
}

/// Whether the first block has no parent, and each other one the block before it.
pub open spec fn is_chain(records: Seq<FinalizedBlockRecord>) -> bool {
    forall|i: int|
        0 <= i < records.len() ==> (#[trigger] records[i]).parent == link_after(records.take(i))
}

/// Keeps the finalized blocks that form a chain.
pub fn filter_finalized_chain(records: Vec<FinalizedBlockRecord>) -> (r: Vec<FinalizedBlockRecord>)
    ensures
        r@ == chain_of(records@),
{
    let mut filtered: Vec<FinalizedBlockRecord> = Vec::new();
    let mut expected: Option<RawCandidateId> = None;
    let mut i: usize = 0;
    while i < records.len()
        invariant
            i <= records@.len(),
            filtered@ == chain_of(records@.take(i as int)),
            expected == link_after(filtered@),
        decreases records@.len() - i,
    {
        assert(records@.take(i as int + 1).drop_last() =~= records@.take(i as int));
        let record: FinalizedBlockRecord = records[i];
        if record.parent == expected {
            expected = Some(record.candidate_id);
            filtered.push(record);
        }
        i += 1;
    }
    assert(records@.take(i as int) =~= records@);
    filtered
}

/// What `pick` takes of the entries that could be read.
pub open spec fn picked<T, U>(entries: Seq<Option<T>>, pick: spec_fn(T) -> Option<U>) -> Seq<U>
    decreases entries.len(),
{
    if entries.len() == 0 {
        Seq::empty()
    } else {
        let before = picked(entries.drop_last(), pick);
        match entries.last() {
            Some(entry) => match pick(entry) {
                Some(u) => before.push(u),
                None => before,
            },
            None => before,
        }
    }
}

/// Takes every entry.
pub open spec fn any_entry<T>() -> spec_fn(T) -> Option<T> {
    |entry: T| Some(entry)
}

/// Takes votes.
pub open spec fn vote_entry() -> spec_fn(VoteStorageEntry) -> Option<VoteRecord> {
    |entry: VoteStorageEntry|
        match entry {
            VoteStorageEntry::Vote(record) => Some(record),
            _ => None,
        }
}

/// Takes notarization certificates.
pub open spec fn notar_entry() -> spec_fn(VoteStorageEntry) -> Option<NotarCertRecord> {
    |entry: VoteStorageEntry|
        match entry {
            VoteStorageEntry::NotarCert(record) => Some(record),
            _ => None,
        }
}

/// Takes finalization certificates.
pub open spec fn final_entry() -> spec_fn(VoteStorageEntry) -> Option<FinalCertRecord> {
    |entry: VoteStorageEntry|
        match entry {
            VoteStorageEntry::FinalCert(record) => Some(record),
            _ => None,
        }
}

/// Takes skip certificates.
pub open spec fn skip_entry() -> spec_fn(VoteStorageEntry) -> Option<SkipCertRecord> {
    |entry: VoteStorageEntry|
        match entry {
            VoteStorageEntry::SkipCert(record) => Some(record),
            _ => None,
        }
}

fn reversed<T>(v: Vec<T>) -> (r: Vec<T>)
    ensures
        r@ == v@.reverse(),
{
    let ghost all = v@;
    let mut v: Vec<T> = v;
    let mut out: Vec<T> = Vec::new();
    while v.len() > 0
        invariant
            v@.len() + out@.len() == all.len(),
            v@ == all.take(v@.len() as int),
            out@ == all.skip(v@.len() as int).reverse(),
        decreases v@.len(),
    {
        let ghost n = v@.len() as int;
        match v.pop() {
            Some(x) => {
                assert(x == all[n - 1]);
                out.push(x);
            },
            None => {},
        }
        assert(v@ =~= all.take(n - 1));
        assert(out@ =~= all.skip(n - 1).reverse());
    }
    assert(all.skip(0) =~= all);
    out
}

proof fn lemma_picked_next<T, U>(
    entries: Seq<Option<T>>,
    rest: Seq<Option<T>>,
    pick: spec_fn(T) -> Option<U>,
)
    requires
        rest.len() > 0,
        rest.len() <= entries.len(),
        rest == entries.reverse().take(rest.len() as int),
    ensures
        ({
            let k = entries.len() - rest.len();
            &&& rest.last() == entries[k]
            &&& entries.take(k + 1).drop_last() == entries.take(k)
            &&& entries.take(k + 1).last() == entries[k]
            &&& rest.drop_last() == entries.reverse().take(rest.len() - 1)
        }),
{
    let k = entries.len() - rest.len();
    assert(entries.take(k + 1).drop_last() =~= entries.take(k));
    assert(rest.drop_last() =~= entries.reverse().take(rest.len() - 1));
}

/// Keeps the entries that could be read.
pub fn keep_readable<T>(entries: Vec<Option<T>>) -> (r: Vec<T>)
    ensures
        r@ == picked(entries@, any_entry::<T>()),
{
    let select = |e: T| -> (u: Option<T>)
        ensures
            u == any_entry::<T>()(e),
        { Some(e) };
    keep_selected(entries, select, Ghost(any_entry::<T>()))
}

/// Keeps what `select` takes out of the entries that could be read.
fn keep_selected<T, U, F: Fn(T) -> Option<U>>(
    entries: Vec<Option<T>>,
    select: F,
    Ghost(pick): Ghost<spec_fn(T) -> Option<U>>,
) -> (r: Vec<U>)
    requires
        forall|t: T| #[trigger] call_requires(select, (t,)),
        forall|t: T, u: Option<U>| #[trigger] call_ensures(select, (t,), u) ==> u == pick(t),
    ensures
        r@ == picked(entries@, pick),
{
    let ghost all = entries@;
    let mut rest: Vec<Option<T>> = reversed(entries);
    let mut out: Vec<U> = Vec::new();
    assert(rest@ =~= all.reverse().take(rest@.len() as int));
    assert(all.take(0) =~= Seq::<Option<T>>::empty());
    while rest.len() > 0
        invariant
            rest@.len() <= all.len(),
            rest@ == all.reverse().take(rest@.len() as int),
            forall|t: T| #[trigger] call_requires(select, (t,)),
            forall|t: T, u: Option<U>| #[trigger] call_ensures(select, (t,), u) ==> u == pick(t),
            out@ == picked(all.take(all.len() - rest@.len()), pick),
        decreases rest@.len(),
    {
        proof {
            lemma_picked_next(all, rest@, pick);
        }
        match rest.pop() {
            Some(Some(entry)) => match select(entry) {
                Some(u) => out.push(u),
                None => {},
            },
            _ => {},
        }
    }
    assert(all.take(all.len() as int) =~= all);
    out
}

fn keep_votes(entries: Vec<Option<VoteStorageEntry>>) -> (r: Vec<VoteRecord>)
    ensures
        r@ == picked(entries@, vote_entry()),
{
    let select = |e: VoteStorageEntry| -> (u: Option<VoteRecord>)
        ensures
            u == vote_entry()(e),
        {
            match e {
                VoteStorageEntry::Vote(record) => Some(record),
                _ => None,
            }
        };
    keep_selected(entries, select, Ghost(vote_entry()))
}

fn keep_notar_certs(entries: Vec<Option<VoteStorageEntry>>) -> (r: Vec<NotarCertRecord>)
    ensures
        r@ == picked(entries@, notar_entry()),
{
    let select = |e: VoteStorageEntry| -> (u: Option<NotarCertRecord>)
        ensures
            u == notar_entry()(e),
        {
            match e {
                VoteStorageEntry::NotarCert(record) => Some(record),
                _ => None,
            }
        };
    keep_selected(entries, select, Ghost(notar_entry()))
}

fn keep_final_certs(entries: Vec<Option<VoteStorageEntry>>) -> (r: Vec<FinalCertRecord>)
    ensures
        r@ == picked(entries@, final_entry()),
{
    let select = |e: VoteStorageEntry| -> (u: Option<FinalCertRecord>)
        ensures
            u == final_entry()(e),
        {
            match e {
                VoteStorageEntry::FinalCert(record) => Some(record),
                _ => None,
            }
        };
    keep_selected(entries, select, Ghost(final_entry()))
}

fn keep_skip_certs(entries: Vec<Option<VoteStorageEntry>>) -> (r: Vec<SkipCertRecord>)
    ensures
        r@ == picked(entries@, skip_entry()),
{
    let select = |e: VoteStorageEntry| -> (u: Option<SkipCertRecord>)
        ensures
            u == skip_entry()(e),
        {
            match e {
                VoteStorageEntry::SkipCert(record) => Some(record),
                _ => None,
            }
        };
    keep_selected(entries, select, Ghost(skip_entry()))
}

/// The first of `records` that `wanted` selects.
pub open spec fn first_wanted<T>(records: Seq<T>, wanted: spec_fn(T) -> bool) -> Option<T>
    decreases records.len(),
{
    if records.len() == 0 {
        None
    } else if wanted(records[0]) {
        Some(records[0])
    } else {
        first_wanted(records.drop_first(), wanted)
    }
}

/// Takes out the first of `records` that `is_wanted` selects.
fn take_first<T, F: Fn(&T) -> bool>(
    records: Vec<T>,
    is_wanted: F,
    Ghost(wanted): Ghost<spec_fn(T) -> bool>,
) -> (r: Option<T>)
    requires
        forall|t: &T| #[trigger] call_requires(is_wanted, (t,)),
        forall|t: &T, b: bool| #[trigger] call_ensures(is_wanted, (t,), b) ==> b == wanted(*t),
    ensures
        r == first_wanted(records@, wanted),
{
    let ghost all = records@;
    let mut rest: Vec<T> = reversed(records);
    assert(all.reverse().reverse() =~= all);
    while rest.len() > 0
        invariant
            forall|t: &T| #[trigger] call_requires(is_wanted, (t,)),
            forall|t: &T, b: bool| #[trigger]
                call_ensures(is_wanted, (t,), b) ==> b == wanted(*t),
            all == records@,
            first_wanted(rest@.reverse(), wanted) == first_wanted(all, wanted),
        decreases rest@.len(),
    {
        let ghost left = rest@;
        assert(left.reverse()[0] == left.last());
        assert(left.reverse().drop_first() =~= left.drop_last().reverse());
        match rest.pop() {
            Some(record) => if is_wanted(&record) {
                return Some(record);
            },
            None => {},
        }
    }
    None
}

/// All that was stored, as far as it could be read.
#[derive(Debug)]
pub struct StoredEntries {
    pub finalized_blocks: Vec<Option<FinalizedBlockRecord>>,
    pub candidate_infos: Vec<Option<CandidateInfoRecord>>,
    pub notar_certs: Vec<Option<VoteStorageEntry>>,
    pub final_certs: Vec<Option<VoteStorageEntry>>,
    pub skip_certs: Vec<Option<VoteStorageEntry>>,
    pub votes: Vec<Option<VoteStorageEntry>>,
    pub pool_state: Vec<Option<PoolStateRecord>>,
    pub candidate_payloads: Vec<Option<(RawCandidateId, Vec<u8>)>>,
}

/// Whether `b` holds what is usable of `entries`, with the given pool state.
pub open spec fn is_bootstrap(
    b: Bootstrap,
    entries: StoredEntries,
    pool_state: Option<PoolStateRecord>,
) -> bool {
    &&& b.finalized_blocks@ == chain_of(
        by_rank(picked(entries.finalized_blocks@, any_entry::<FinalizedBlockRecord>())),
    )
    &&& b.candidate_infos@ == picked(
        entries.candidate_infos@,
        any_entry::<CandidateInfoRecord>(),
    )
    &&& b.notar_certs@ == by_rank(picked(entries.notar_certs@, notar_entry()))
    &&& b.final_certs@ == by_rank(picked(entries.final_certs@, final_entry()))
    &&& b.skip_certs@ == by_rank(picked(entries.skip_certs@, skip_entry()))
    &&& b.votes@ == by_rank(picked(entries.votes@, vote_entry()))
    &&& b.pool_state == pool_state
    &&& b.candidate_payloads@ == picked(
        entries.candidate_payloads@,
        any_entry::<(RawCandidateId, Vec<u8>)>(),
    )
}

/// Why a session cannot be loaded.
#[derive(Clone, Copy, Debug, PartialEq, Eq, Structural)]
pub enum LoadError {
    /// Loading was cancelled.
    Cancelled,
    /// The numbers of votes are used up.
    VoteNumbersUsedUp,
    /// The stored state of the pool could not be read.
    UnreadablePoolState,
}

/// The first stored state of the pool, if there is one.
pub open spec fn first_pool_state(entries: Seq<Option<PoolStateRecord>>) -> Result<
    Option<PoolStateRecord>,
    LoadError,
> {
    if entries.len() == 0 {
        Ok(None)
    } else {
        match entries[0] {
            Some(record) => Ok(Some(record)),
            None => Err(LoadError::UnreadablePoolState),
        }
    }
}

/// The database of a session: what is written, and what comes of what is read.
#[derive(Clone, Copy, Debug, PartialEq, Eq, Structural)]
pub struct SimplexDb {
    /// Number of the next stored vote.
    pub next_vote_seqno: i64,
}

impl SimplexDb {
    /// The database after `votes` were read, which stand in the order in which
    /// they were stored; `None` if numbers are used up.
    pub open spec fn after(self, votes: Seq<VoteRecord>) -> Option<SimplexDb> {
        if votes.len() == 0 {
            Some(self)
        } else if votes.last().seqno == i64::MAX {
            None
        } else {
            Some(SimplexDb { next_vote_seqno: (votes.last().seqno + 1) as i64 })
        }
    }

    /// The number of the next vote once one was stored.
    pub open spec fn next_number(self) -> int {
        if self.next_vote_seqno == i64::MAX {
            i64::MIN as int
        } else {
            self.next_vote_seqno + 1
        }
    }

    /// A database that was opened and not read yet.
    pub fn open() -> (r: SimplexDb)
        ensures
            r.next_vote_seqno == 0,
    {
        SimplexDb { next_vote_seqno: 0 }
    }

    /// What is written for a finalized block.
    pub fn save_finalized_block_async(&self, record: &FinalizedBlockRecord) -> (r: (
        WireCandidateId,
        StoredFinalizedBlock,
    ))
        ensures
            r == record.stored(),
    {
        record.to_stored()
    }

    /// What is written of what a candidate's hash was computed from.
    pub fn save_candidate_info_async(&self, record: CandidateInfoRecord) -> (r: (
        WireCandidateId,
        StoredCandidateInfo,
    ))
        ensures
            r == record.stored(),
    {
        record.to_stored()
    }

    /// What is written for a notarization certificate.
    pub fn save_notar_cert_async(&self, cert: &NotarCert) -> (r: (UnsignedVote, Vec<WireSignature>))
        ensures
            r.0 == unsigned(Vote::Notarize(cert.vote)),
            r.1@.len() == cert.signatures@.len(),
            forall|i: int|
                0 <= i < r.1@.len() ==> travels_as(cert.signatures@[i]@, #[trigger] r.1@[i]),
    {
        cert.to_tl()
    }

    /// What is written for a finalization certificate.
    pub fn save_final_cert_async(&self, cert: &FinalCert) -> (r: (UnsignedVote, Vec<WireSignature>))
        ensures
            r.0 == unsigned(Vote::Finalize(cert.vote)),
            r.1@.len() == cert.signatures@.len(),
            forall|i: int|
                0 <= i < r.1@.len() ==> travels_as(cert.signatures@[i]@, #[trigger] r.1@[i]),
    {
        cert.to_tl()
    }

    /// What is written for a skip certificate.
    pub fn save_skip_cert_async(&self, cert: &SkipCert) -> (r: (UnsignedVote, Vec<WireSignature>))
        ensures
            r.0 == unsigned(Vote::Skip(cert.vote)),
            r.1@.len() == cert.signatures@.len(),
            forall|i: int|
                0 <= i < r.1@.len() ==> travels_as(cert.signatures@[i]@, #[trigger] r.1@[i]),
    {
        cert.to_tl()
    }

    /// What is written of a candidate itself.
    pub fn save_candidate_payload_async(
        &self,
        candidate_id: &RawCandidateId,
        candidate_data_bytes: Vec<u8>,
    ) -> (r: (WireCandidateId, Vec<u8>))
        ensures
            r == (WireCandidateId::encoded(*candidate_id), candidate_data_bytes),
    {
        (WireCandidateId::encode(candidate_id), candidate_data_bytes)
    }

    /// What is written for a vote, which gets the next number.
    pub fn save_vote_async(&mut self, record: VoteRecord) -> (r: (UInt256, StoredVote))
        ensures
            r == (VoteRecord { seqno: old(self).next_vote_seqno, ..record }).stored(),
            final(self).next_vote_seqno == old(self).next_number(),
            final(self).next_vote_seqno == (if old(self).next_vote_seqno == i64::MAX {
                i64::MIN as int
            } else {
                old(self).next_vote_seqno + 1
            }),
    {
        let seqno: i64 = self.next_vote_seqno;
        if seqno == i64::MAX {
            self.next_vote_seqno = i64::MIN;
        } else {
            self.next_vote_seqno = seqno + 1;
        }
        let numbered = VoteRecord {
            vote_hash: record.vote_hash,
            data: record.data,
            node_idx: record.node_idx,
            seqno,
        };
        numbered.to_stored()
    }

    /// What is written of what was announced.
    pub fn save_pool_state_async(&self, record: &PoolStateRecord) -> (r: i32)
        ensures
            r == record.stored(),
    {
        record.to_stored()
    }

    /// The votes in the order in which they were stored; the next vote comes
    /// after them. Fails if the numbers of votes are used up.
    pub fn load_votes(&mut self, entries: Vec<Option<VoteStorageEntry>>) -> (r: Result<
        Vec<VoteRecord>,
        LoadError,
    >)
        ensures
            ({
                let votes = by_rank(picked(entries@, vote_entry()));
                match old(self).after(votes) {
                    Some(db) => r is Ok && r->Ok_0@ == votes && *final(self) == db,
                    None => r == Err::<Vec<VoteRecord>, LoadError>(LoadError::VoteNumbersUsedUp)
                        && *final(self) == *old(self),
                }
            }),
    {
        let mut votes: Vec<VoteRecord> = keep_votes(entries);
        sort_by_rank(&mut votes);
        if votes.len() > 0 {
            let last: i64 = votes[votes.len() - 1].seqno;
            if last == i64::MAX {
                return Err(LoadError::VoteNumbersUsedUp);
            }
            self.next_vote_seqno = last + 1;
        }
        Ok(votes)
    }

    /// What can be read of what candidates' hashes were computed from.
    pub fn load_candidate_infos(&self, entries: Vec<Option<CandidateInfoRecord>>) -> (r: Vec<
        CandidateInfoRecord,
    >)
        ensures
            r@ == picked(entries@, any_entry::<CandidateInfoRecord>()),
    {
        keep_readable(entries)
    }

    /// The finalized blocks by slot, as far as they form a chain.
    pub fn load_finalized_blocks(&self, entries: Vec<Option<FinalizedBlockRecord>>) -> (r: Vec<
        FinalizedBlockRecord,
    >)
        ensures
            r@ == chain_of(by_rank(picked(entries@, any_entry::<FinalizedBlockRecord>()))),
    {
        let mut records: Vec<FinalizedBlockRecord> = keep_readable(entries);
        sort_by_rank(&mut records);
        filter_finalized_chain(records)
    }

    /// The notarization certificates by slot.
    pub fn load_notar_certs(&self, entries: Vec<Option<VoteStorageEntry>>) -> (r: Vec<NotarCertRecord>)
        ensures
            r@ == by_rank(picked(entries@, notar_entry())),
    {
        let mut records: Vec<NotarCertRecord> = keep_notar_certs(entries);
        sort_by_rank(&mut records);
        records
    }

    /// The finalization certificates by slot.
    pub fn load_final_certs(&self, entries: Vec<Option<VoteStorageEntry>>) -> (r: Vec<FinalCertRecord>)
        ensures
            r@ == by_rank(picked(entries@, final_entry())),
    {
        let mut records: Vec<FinalCertRecord> = keep_final_certs(entries);
        sort_by_rank(&mut records);
        records
    }

    /// The skip certificates by slot.
    pub fn load_skip_certs(&self, entries: Vec<Option<VoteStorageEntry>>) -> (r: Vec<SkipCertRecord>)
        ensures
            r@ == by_rank(picked(entries@, skip_entry())),
    {
        let mut records: Vec<SkipCertRecord> = keep_skip_certs(entries);
        sort_by_rank(&mut records);
        records
    }

    /// The record of what the candidate's hash was computed from; `stored` is
    /// what is stored under the candidate.
    pub fn load_candidate_info_by_id(
        &self,
        candidate_id: &RawCandidateId,
        stored: Option<StoredCandidateInfo>,
    ) -> (r: Option<CandidateInfoRecord>)
        ensures
            r == (match stored {
                Some(value) => Some(
                    CandidateInfoRecord::read(WireCandidateId::encoded(*candidate_id), value),
                ),
                None => None,
            }),
    {
        match stored {
            Some(value) => Some(
                CandidateInfoRecord::from_stored(&WireCandidateId::encode(candidate_id), value),
            ),
            None => None,
        }
    }

    /// The first notarization certificate of a candidate.
    pub fn load_notar_cert_by_id(
        &self,
        entries: Vec<Option<VoteStorageEntry>>,
        candidate_id: &RawCandidateId,
    ) -> (r: Option<NotarCertRecord>)
        ensures
            r == first_wanted(
                picked(entries@, notar_entry()),
                |record: NotarCertRecord| record.candidate_id == *candidate_id,
            ),
    {
        let is_wanted = |record: &NotarCertRecord| -> (b: bool)
            ensures
                b == (record.candidate_id == *candidate_id),
            { record.candidate_id == *candidate_id };
        take_first(
            keep_notar_certs(entries),
            is_wanted,
            Ghost(|record: NotarCertRecord| record.candidate_id == *candidate_id),
        )
    }

    /// The first finalization certificate of a candidate.
    pub fn load_final_cert_by_id(
        &self,
        entries: Vec<Option<VoteStorageEntry>>,
        candidate_id: &RawCandidateId,
    ) -> (r: Option<FinalCertRecord>)
        ensures
            r == first_wanted(
                picked(entries@, final_entry()),
                |record: FinalCertRecord| record.candidate_id == *candidate_id,
            ),
    {
        let is_wanted = |record: &FinalCertRecord| -> (b: bool)
            ensures
                b == (record.candidate_id == *candidate_id),
            { record.candidate_id == *candidate_id };
        take_first(
            keep_final_certs(entries),
            is_wanted,
            Ghost(|record: FinalCertRecord| record.candidate_id == *candidate_id),
        )
    }

    /// The first skip certificate of a slot.
    pub fn load_skip_cert_by_slot(
        &self,
        entries: Vec<Option<VoteStorageEntry>>,
        slot: SlotIndex,
    ) -> (r: Option<SkipCertRecord>)
        ensures
            r == first_wanted(
                picked(entries@, skip_entry()),
                |record: SkipCertRecord| record.slot == slot,
            ),
    {
        let is_wanted = |record: &SkipCertRecord| -> (b: bool)
            ensures
                b == (record.slot == slot),
            { record.slot == slot };
        take_first(
            keep_skip_certs(entries),
            is_wanted,
            Ghost(|record: SkipCertRecord| record.slot == slot),
        )
    }

    /// The first stored state of the pool, if there is one.
    pub fn load_pool_state(&self, entries: &Vec<Option<PoolStateRecord>>) -> (r: Result<
        Option<PoolStateRecord>,
        LoadError,
    >)
        ensures
            r == first_pool_state(entries@),
    {
        if entries.len() == 0 {
            return Ok(None);
        }
        match entries[0] {
            Some(record) => Ok(Some(record)),
            None => Err(LoadError::UnreadablePoolState),
        }
    }

    fn collect(
        &mut self,
        entries: StoredEntries,
        pool_state: Option<PoolStateRecord>,
    ) -> (r: Result<Bootstrap, LoadError>)
        ensures
            loaded(*old(self), entries, Ok(pool_state), r, *final(self)),
    {
        let votes: Vec<VoteRecord> = match self.load_votes(entries.votes) {
            Ok(votes) => votes,
            Err(e) => {
                return Err(e);
            },
        };
        Ok(
            Bootstrap {
                finalized_blocks: self.load_finalized_blocks(entries.finalized_blocks),
                candidate_infos: self.load_candidate_infos(entries.candidate_infos),
                notar_certs: self.load_notar_certs(entries.notar_certs),
                final_certs: self.load_final_certs(entries.final_certs),
                skip_certs: self.load_skip_certs(entries.skip_certs),
                votes,
                pool_state,
                candidate_payloads: keep_readable(entries.candidate_payloads),
            },
        )
    }

    /// What a session starts from; fails if the numbers of votes are used up or
    /// the state of the pool cannot be read.
    pub fn load_bootstrap(&mut self, entries: StoredEntries) -> (r: Result<Bootstrap, LoadError>)
        ensures
            loaded(
                *old(self),
                entries,
                first_pool_state(entries.pool_state@),
                r,
                *final(self),
            ),
    {
        match self.load_pool_state(&entries.pool_state) {
            Ok(pool_state) => self.collect(entries, pool_state),
            Err(e) => match self.load_votes(entries.votes) {
                Ok(_) => Err(e),
                Err(earlier) => Err(earlier),
            },
        }
    }

    /// What a session starts from, unless loading was cancelled; fails if the
    /// numbers of votes are used up. A state of the pool that cannot be read is
    /// left out.
    pub fn load_bootstrap_cancellable(&mut self, entries: Option<StoredEntries>) -> (r: Result<
        Bootstrap,
        LoadError,
    >)
        ensures
            match entries {
                None => r == Err::<Bootstrap, LoadError>(LoadError::Cancelled) && *final(self)
                    == *old(self),
                Some(e) => loaded(
                    *old(self),
                    e,
                    match first_pool_state(e.pool_state@) {
                        Ok(pool_state) => Ok(pool_state),
                        Err(_) => Ok(None),
                    },
                    r,
                    *final(self),
                ),
            },
    {
        match entries {
            None => Err(LoadError::Cancelled),
            Some(e) => {
                let pool_state: Option<PoolStateRecord> = match self.load_pool_state(
                    &e.pool_state,
                ) {
                    Ok(pool_state) => pool_state,
                    Err(_) => None,
                };
                self.collect(e, pool_state)
            },
        }
    }
}

/// Whether `r` is what a session starts from, or why there is none, and `after`
/// the database then.
pub open spec fn loaded(
    before: SimplexDb,
    entries: StoredEntries,
    pool_state: Result<Option<PoolStateRecord>, LoadError>,
    r: Result<Bootstrap, LoadError>,
    after: SimplexDb,
) -> bool {
    match before.after(by_rank(picked(entries.votes@, vote_entry()))) {
        None => r == Err::<Bootstrap, LoadError>(LoadError::VoteNumbersUsedUp) && after == before,
        Some(db) => {
            &&& after == db
            &&& match pool_state {
                Ok(state) => r is Ok && is_bootstrap(r->Ok_0, entries, state),
                Err(e) => r == Err::<Bootstrap, LoadError>(e),
            }
        },
    }
}

proof fn lemma_chain(records: Seq<FinalizedBlockRecord>)
    ensures
        is_chain(chain_of(records)),
    decreases records.len(),
{
    if records.len() > 0 {
        let before = chain_of(records.drop_last());
        lemma_chain(records.drop_last());
        let all = chain_of(records);
        assert forall|i: int| 0 <= i < all.len() implies (#[trigger] all[i]).parent == link_after(
            all.take(i),
        ) by {
            if i < before.len() {
                assert(all[i] == before[i]);
                assert(all.take(i) =~= before.take(i));
            } else {
                assert(all.take(i) =~= before);
            }
        }
    }
}

proof fn lemma_chain_is_kept(records: Seq<FinalizedBlockRecord>)
    requires
        is_chain(records),
    ensures
        chain_of(records) == records,
    decreases records.len(),
{
    if records.len() > 0 {
        let rest = records.drop_last();
        assert forall|i: int| 0 <= i < rest.len() implies (#[trigger] rest[i]).parent == link_after(
            rest.take(i),
        ) by {
            assert(records[i] == rest[i]);
            assert(records.take(i) =~= rest.take(i));
        }
        lemma_chain_is_kept(rest);
        let n = records.len() - 1;
        assert(records[n].parent == link_after(records.take(n)));
        assert(records.take(n) =~= rest);
        assert(rest.push(records.last()) =~= records);
    }
}

/// The finalized blocks that a session starts from form a chain, whatever was
/// stored: the first has no parent, each other one follows the one before it,
/// and they are among what was stored. A chain is kept as it is; so keeping it
/// once more changes nothing.
pub proof fn finalized_blocks_form_a_chain(records: Seq<FinalizedBlockRecord>)
    ensures
        is_chain(chain_of(records)),
        is_chain(records) ==> chain_of(records) == records,
        chain_of(chain_of(records)) == chain_of(records),
        forall|i: int| 0 <= i < chain_of(records).len() ==> records.contains(
            #[trigger] chain_of(records)[i],
        ),
    decreases records.len(),
{
    lemma_chain(records);
    lemma_chain_is_kept(chain_of(records));
    if is_chain(records) {
        lemma_chain_is_kept(records);
    }
    if records.len() > 0 {
        let rest = records.drop_last();
        finalized_blocks_form_a_chain(rest);
        assert forall|i: int| 0 <= i < chain_of(records).len() implies records.contains(
            #[trigger] chain_of(records)[i],
        ) by {
            if i < chain_of(rest).len() {
                assert(chain_of(records)[i] == chain_of(rest)[i]);
                let j = choose|j: int| 0 <= j < rest.len() && rest[j] == chain_of(rest)[i];
                assert(records[j] == rest[j]);
            } else {
                assert(records[records.len() - 1] == chain_of(records)[i]);
            }
        }
    }
}

/// A candidate that was stored is read back.
pub proof fn stored_candidates_are_read_back(id: RawCandidateId)
    ensures
        WireCandidateId::encoded(id).decoded() == id,
{
    let x = id.slot.0;
    assert((x as i32) as u32 == x) by (bit_vector);
}

/// A record that was stored is read back: of a finalized block, of a vote, of
/// what a candidate's hash was computed from, and of what was announced.
pub proof fn stored_records_are_read_back(
    finalized: FinalizedBlockRecord,
    vote: VoteRecord,
    info: CandidateInfoRecord,
    pool: PoolStateRecord,
)
    ensures
        FinalizedBlockRecord::read(finalized.stored().0, finalized.stored().1) == finalized,
        VoteStorageEntry::read(vote.stored().0, vote.stored().1) == VoteStorageEntry::Vote(vote),
        CandidateInfoRecord::read(info.stored().0, info.stored().1) == info,
        PoolStateRecord::read(pool.stored()) == pool,
{
    stored_candidates_are_read_back(finalized.candidate_id);
    match finalized.parent {
        Some(p) => {
            stored_candidates_are_read_back(p);
        },
        None => {},
    }
    stored_candidates_are_read_back(info.candidate_id);
    let a = vote.node_idx.0;
    let b = info.leader_idx;
    let c = pool.first_nonannounced_window.0;
    assert((a as i32) as u32 == a) by (bit_vector);
    assert((b as i32) as u32 == b) by (bit_vector);
    assert((c as i32) as u32 == c) by (bit_vector);
}

/// A vote that is stored after a restart comes after all votes that were read
/// then, so that votes are replayed in the order in which they were stored.
pub proof fn new_votes_come_last(entries: Seq<Option<VoteStorageEntry>>, db: SimplexDb)
    ensures
        ({
            let votes = by_rank(picked(entries, vote_entry()));
            &&& is_sorted(votes)
            &&& db.after(votes) matches Some(next) ==> forall|i: int|
                0 <= i < votes.len() ==> (#[trigger] votes[i]).seqno < next.next_vote_seqno
        }),
{
    let votes = by_rank(picked(entries, vote_entry()));
    sorting_is_stable(picked(entries, vote_entry()));
    if votes.len() > 0 {
        let n = votes.len() - 1;
        assert forall|i: int| 0 <= i < votes.len() implies (#[trigger] votes[i]).seqno
            <= votes.last().seqno by {
            assert(votes[i].rank() <= votes[n].rank());
        }
    }
}

proof fn lemma_picked<T, U>(entries: Seq<Option<T>>, pick: spec_fn(T) -> Option<U>, i: int)
    requires
        0 <= i < entries.len(),
        entries[i] is Some,
        pick(entries[i]->Some_0) is Some,
    ensures
        picked(entries, pick).contains(pick(entries[i]->Some_0)->Some_0),
    decreases entries.len(),
{
    let u = pick(entries[i]->Some_0)->Some_0;
    let before = picked(entries.drop_last(), pick);
    if i == entries.len() - 1 {
        assert(picked(entries, pick)[before.len() as int] == u);
    } else {
        lemma_picked(entries.drop_last(), pick, i);
        let j = choose|j: int| 0 <= j < before.len() && before[j] == u;
        assert(picked(entries, pick)[j] == u);
    }
}

proof fn lemma_first_wanted<T>(records: Seq<T>, wanted: spec_fn(T) -> bool)
    ensures
        match first_wanted(records, wanted) {
            Some(x) => wanted(x) && records.contains(x),
            None => forall|i: int| 0 <= i < records.len() ==> !wanted(#[trigger] records[i]),
        },
    decreases records.len(),
{
    if records.len() > 0 {
        let rest = records.drop_first();
        lemma_first_wanted(rest, wanted);
        match first_wanted(records, wanted) {
            Some(x) => {
                if wanted(records[0]) {
                    assert(records[0] == x);
                } else {
                    let j = choose|j: int| 0 <= j < rest.len() && rest[j] == x;
                    assert(records[j + 1] == x);
                }
            },
            None => {
                assert forall|i: int| 0 <= i < records.len() implies !wanted(#[trigger] records[i]) by {
                    if i > 0 {
                        assert(rest[i - 1] == records[i]);
                    }
                }
            },
        }
    }
}

/// A certificate that was stored is found: looking up the candidate or slot that
/// it certifies gives a certificate of that candidate or slot.
pub proof fn stored_certificates_are_found(
    entries: Seq<Option<VoteStorageEntry>>,
    i: int,
    key: UInt256,
    vote: Vote,
    cert_bytes: Vec<u8>,
    signature_bytes: Vec<u8>,
)
    requires
        0 <= i < entries.len(),
        entries[i] == Some(
            VoteStorageEntry::read(
                key,
                StoredVote::Certificate { vote, cert_bytes, signature_bytes },
            ),
        ),
    ensures
        match vote {
            Vote::Notarize(v) => {
                let id = RawCandidateId { slot: v.slot, hash: v.block_hash };
                first_wanted(
                    picked(entries, notar_entry()),
                    |record: NotarCertRecord| record.candidate_id == id,
                ) matches Some(record) && record.candidate_id == id
            },
            Vote::Finalize(v) => {
                let id = RawCandidateId { slot: v.slot, hash: v.block_hash };
                first_wanted(
                    picked(entries, final_entry()),
                    |record: FinalCertRecord| record.candidate_id == id,
                ) matches Some(record) && record.candidate_id == id
            },
            Vote::Skip(v) => first_wanted(
                picked(entries, skip_entry()),
                |record: SkipCertRecord| record.slot == v.slot,
            ) matches Some(record) && record.slot == v.slot,
        },
{
    match vote {
        Vote::Notarize(v) => {
            let id = RawCandidateId { slot: v.slot, hash: v.block_hash };
            lemma_picked(entries, notar_entry(), i);
            lemma_first_wanted(
                picked(entries, notar_entry()),
                |record: NotarCertRecord| record.candidate_id == id,
            );
        },
        Vote::Finalize(v) => {
            let id = RawCandidateId { slot: v.slot, hash: v.block_hash };
            lemma_picked(entries, final_entry(), i);
            lemma_first_wanted(
                picked(entries, final_entry()),
                |record: FinalCertRecord| record.candidate_id == id,
            );
        },
        Vote::Skip(v) => {
            lemma_picked(entries, skip_entry(), i);
            lemma_first_wanted(
                picked(entries, skip_entry()),
                |record: SkipCertRecord| record.slot == v.slot,
            );
        },
    }
}

proof fn lemma_picked_from<T, U>(entries: Seq<Option<T>>, pick: spec_fn(T) -> Option<U>, u: U)
    requires
        picked(entries, pick).contains(u),
    ensures
        exists|i: int|
            0 <= i < entries.len() && (#[trigger] entries[i]) is Some && pick(entries[i]->Some_0)
                == Some(u),
    decreases entries.len(),
{
    let all = picked(entries, pick);
    let j = choose|j: int| 0 <= j < all.len() && all[j] == u;
    if entries.len() > 0 {
        let rest = entries.drop_last();
        let before = picked(rest, pick);
        if j < before.len() {
            assert(before[j] == u);
            lemma_picked_from(rest, pick, u);
            let i = choose|i: int|
                0 <= i < rest.len() && (#[trigger] rest[i]) is Some && pick(rest[i]->Some_0)
                    == Some(u);
            assert(entries[i] == rest[i]);
        } else {
            let n = entries.len() - 1;
            assert(entries[n] is Some && pick(entries[n]->Some_0) == Some(u));
        }
    }
}

/// What can be read is kept: something is loaded exactly if it was taken from an entry
/// that could be read. So one entry that cannot be read does not hide another.
pub proof fn readable_entries_are_kept<T, U>(
    entries: Seq<Option<T>>,
    pick: spec_fn(T) -> Option<U>,
    u: U,
)
    ensures
        picked(entries, pick).contains(u) <==> exists|i: int|
            0 <= i < entries.len() && (#[trigger] entries[i]) is Some && pick(entries[i]->Some_0)
                == Some(u),
        picked(entries, pick).len() <= entries.len(),
    decreases entries.len(),
{
    if picked(entries, pick).contains(u) {
        lemma_picked_from(entries, pick, u);
    }
    if exists|i: int|
        0 <= i < entries.len() && (#[trigger] entries[i]) is Some && pick(entries[i]->Some_0)
            == Some(u) {
        let i = choose|i: int|
            0 <= i < entries.len() && (#[trigger] entries[i]) is Some && pick(entries[i]->Some_0)
                == Some(u);
        lemma_picked(entries, pick, i);
    }
    if entries.len() > 0 {
        readable_entries_are_kept(entries.drop_last(), pick, u);
    }
}

/// Entries are kept in the order in which they were read: what is taken from the
/// entries of two lists, one after the other, is what is taken from the first and
/// then what is taken from the second.
pub proof fn readable_entries_keep_their_order<T, U>(
    first: Seq<Option<T>>,
    second: Seq<Option<T>>,
    pick: spec_fn(T) -> Option<U>,
)
    ensures
        picked(first + second, pick) == picked(first, pick) + picked(second, pick),
    decreases second.len(),
{
    if second.len() == 0 {
        assert(first + second =~= first);
        assert(picked(first, pick) + picked(second, pick) =~= picked(first, pick));
    } else {
        let rest = second.drop_last();
        readable_entries_keep_their_order(first, rest, pick);
        assert((first + second).drop_last() =~= first + rest);
        assert((first + second).last() == second.last());
        assert(picked(first + second, pick) =~= picked(first, pick) + picked(second, pick));
    }
}

proof fn lemma_sorted_members<T: crate::order::Ranked>(s: Seq<T>, x: T)
    ensures
        by_rank(s).contains(x) <==> s.contains(x),
{
    broadcast use vstd::seq_lib::group_to_multiset_ensures;

    sorting_is_stable(s);
    assert(by_rank(s).contains(x) <==> by_rank(s).to_multiset().count(x) > 0);
    assert(s.contains(x) <==> s.to_multiset().count(x) > 0);
}

/// A session starts from all that could be read, and from nothing else: all votes, by
/// their numbers, and all certificates, by slot; all that candidates' hashes were
/// computed from, and all payloads.
pub proof fn bootstraps_lose_nothing(
    b: Bootstrap,
    entries: StoredEntries,
    pool_state: Option<PoolStateRecord>,
    vote: VoteRecord,
    notar: NotarCertRecord,
    fin: FinalCertRecord,
    skip: SkipCertRecord,
    info: CandidateInfoRecord,
    payload: (RawCandidateId, Vec<u8>),
)
    requires
        is_bootstrap(b, entries, pool_state),
    ensures
        b.votes@.contains(vote) <==> exists|i: int|
            0 <= i < entries.votes@.len() && #[trigger] entries.votes@[i] == Some(
                VoteStorageEntry::Vote(vote),
            ),
        b.notar_certs@.contains(notar) <==> exists|i: int|
            0 <= i < entries.notar_certs@.len() && #[trigger] entries.notar_certs@[i] == Some(
                VoteStorageEntry::NotarCert(notar),
            ),
        b.final_certs@.contains(fin) <==> exists|i: int|
            0 <= i < entries.final_certs@.len() && #[trigger] entries.final_certs@[i] == Some(
                VoteStorageEntry::FinalCert(fin),
            ),
        b.skip_certs@.contains(skip) <==> exists|i: int|
            0 <= i < entries.skip_certs@.len() && #[trigger] entries.skip_certs@[i] == Some(
                VoteStorageEntry::SkipCert(skip),
            ),
        b.candidate_infos@.contains(info) <==> exists|i: int|
            0 <= i < entries.candidate_infos@.len() && #[trigger] entries.candidate_infos@[i]
                == Some(info),
        b.candidate_payloads@.contains(payload) <==> exists|i: int|
            0 <= i < entries.candidate_payloads@.len() && #[trigger] entries.candidate_payloads@[i]
                == Some(payload),
        forall|i: int, j: int|
            0 <= i <= j < b.votes@.len() ==> b.votes@[i].seqno <= b.votes@[j].seqno,
        forall|i: int, j: int|
            0 <= i <= j < b.notar_certs@.len() ==> b.notar_certs@[i].candidate_id.slot.0
                <= b.notar_certs@[j].candidate_id.slot.0,
        forall|i: int, j: int|
            0 <= i <= j < b.final_certs@.len() ==> b.final_certs@[i].candidate_id.slot.0
                <= b.final_certs@[j].candidate_id.slot.0,
        forall|i: int, j: int|
            0 <= i <= j < b.skip_certs@.len() ==> b.skip_certs@[i].slot.0 <= b.skip_certs@[j].slot.0,
        b.pool_state == pool_state,
{
    lemma_loaded_votes(b, entries, pool_state, vote);
    lemma_loaded_notar_certs(b, entries, pool_state, notar);
    lemma_loaded_final_certs(b, entries, pool_state, fin);
    lemma_loaded_skip_certs(b, entries, pool_state, skip);
    readable_entries_are_kept(
        entries.candidate_infos@,
        any_entry::<CandidateInfoRecord>(),
        info,
    );
    readable_entries_are_kept(
        entries.candidate_payloads@,
        any_entry::<(RawCandidateId, Vec<u8>)>(),
        payload,
    );
    if exists|i: int|
        0 <= i < entries.candidate_infos@.len() && #[trigger] entries.candidate_infos@[i] == Some(
            info,
        ) {
        let i = choose|i: int|
            0 <= i < entries.candidate_infos@.len() && #[trigger] entries.candidate_infos@[i]
                == Some(info);
        assert(any_entry::<CandidateInfoRecord>()(entries.candidate_infos@[i]->Some_0) == Some(info));
    }
    if exists|i: int|
        0 <= i < entries.candidate_payloads@.len() && #[trigger] entries.candidate_payloads@[i]
            == Some(payload) {
        let i = choose|i: int|
            0 <= i < entries.candidate_payloads@.len() && #[trigger] entries.candidate_payloads@[i]
                == Some(payload);
        assert(any_entry::<(RawCandidateId, Vec<u8>)>()(entries.candidate_payloads@[i]->Some_0)
            == Some(payload));
    }
}

proof fn lemma_loaded_votes(
    b: Bootstrap,
    entries: StoredEntries,
    pool_state: Option<PoolStateRecord>,
    vote: VoteRecord,
)
    requires
        is_bootstrap(b, entries, pool_state),
    ensures
        b.votes@.contains(vote) <==> exists|i: int|
            0 <= i < entries.votes@.len() && #[trigger] entries.votes@[i] == Some(
                VoteStorageEntry::Vote(vote),
            ),
        forall|i: int, j: int|
            0 <= i <= j < b.votes@.len() ==> b.votes@[i].seqno <= b.votes@[j].seqno,
{
    let read = picked(entries.votes@, vote_entry());
    lemma_sorted_members(read, vote);
    sorting_is_stable(read);
    readable_entries_are_kept(entries.votes@, vote_entry(), vote);
    if exists|i: int|
        0 <= i < entries.votes@.len() && #[trigger] entries.votes@[i] == Some(
            VoteStorageEntry::Vote(vote),
        ) {
        let i = choose|i: int|
            0 <= i < entries.votes@.len() && #[trigger] entries.votes@[i] == Some(
                VoteStorageEntry::Vote(vote),
            );
        assert(vote_entry()(entries.votes@[i]->Some_0) == Some(vote));
    }
    assert forall|i: int, j: int| 0 <= i <= j < b.votes@.len() implies b.votes@[i].seqno
        <= b.votes@[j].seqno by {
        assert(b.votes@[i].rank() <= b.votes@[j].rank());
    }
}

proof fn lemma_loaded_notar_certs(
    b: Bootstrap,
    entries: StoredEntries,
    pool_state: Option<PoolStateRecord>,
    cert: NotarCertRecord,
)
    requires
        is_bootstrap(b, entries, pool_state),
    ensures
        b.notar_certs@.contains(cert) <==> exists|i: int|
            0 <= i < entries.notar_certs@.len() && #[trigger] entries.notar_certs@[i] == Some(
                VoteStorageEntry::NotarCert(cert),
            ),
        forall|i: int, j: int|
            0 <= i <= j < b.notar_certs@.len() ==> b.notar_certs@[i].candidate_id.slot.0
                <= b.notar_certs@[j].candidate_id.slot.0,
{
    let read = picked(entries.notar_certs@, notar_entry());
    lemma_sorted_members(read, cert);
    sorting_is_stable(read);
    readable_entries_are_kept(entries.notar_certs@, notar_entry(), cert);
    if exists|i: int|
        0 <= i < entries.notar_certs@.len() && #[trigger] entries.notar_certs@[i] == Some(
            VoteStorageEntry::NotarCert(cert),
        ) {
        let i = choose|i: int|
            0 <= i < entries.notar_certs@.len() && #[trigger] entries.notar_certs@[i] == Some(
                VoteStorageEntry::NotarCert(cert),
            );
        assert(notar_entry()(entries.notar_certs@[i]->Some_0) == Some(cert));
    }
    assert forall|i: int, j: int| 0 <= i <= j < b.notar_certs@.len() implies b.notar_certs@[
        i].candidate_id.slot.0 <= b.notar_certs@[j].candidate_id.slot.0 by {
        assert(b.notar_certs@[i].rank() <= b.notar_certs@[j].rank());
    }
}

proof fn lemma_loaded_final_certs(
    b: Bootstrap,
    entries: StoredEntries,
    pool_state: Option<PoolStateRecord>,
    cert: FinalCertRecord,
)
    requires
        is_bootstrap(b, entries, pool_state),
    ensures
        b.final_certs@.contains(cert) <==> exists|i: int|
            0 <= i < entries.final_certs@.len() && #[trigger] entries.final_certs@[i] == Some(
                VoteStorageEntry::FinalCert(cert),
            ),
        forall|i: int, j: int|
            0 <= i <= j < b.final_certs@.len() ==> b.final_certs@[i].candidate_id.slot.0
                <= b.final_certs@[j].candidate_id.slot.0,
{
    let read = picked(entries.final_certs@, final_entry());
    lemma_sorted_members(read, cert);
    sorting_is_stable(read);
    readable_entries_are_kept(entries.final_certs@, final_entry(), cert);
    if exists|i: int|
        0 <= i < entries.final_certs@.len() && #[trigger] entries.final_certs@[i] == Some(
            VoteStorageEntry::FinalCert(cert),
        ) {
        let i = choose|i: int|
            0 <= i < entries.final_certs@.len() && #[trigger] entries.final_certs@[i] == Some(
                VoteStorageEntry::FinalCert(cert),
            );
        assert(final_entry()(entries.final_certs@[i]->Some_0) == Some(cert));
    }
    assert forall|i: int, j: int| 0 <= i <= j < b.final_certs@.len() implies b.final_certs@[
        i].candidate_id.slot.0 <= b.final_certs@[j].candidate_id.slot.0 by {
        assert(b.final_certs@[i].rank() <= b.final_certs@[j].rank());
    }
}

proof fn lemma_loaded_skip_certs(
    b: Bootstrap,
    entries: StoredEntries,
    pool_state: Option<PoolStateRecord>,
    cert: SkipCertRecord,
)
    requires
        is_bootstrap(b, entries, pool_state),
    ensures
        b.skip_certs@.contains(cert) <==> exists|i: int|
            0 <= i < entries.skip_certs@.len() && #[trigger] entries.skip_certs@[i] == Some(
                VoteStorageEntry::SkipCert(cert),
            ),
        forall|i: int, j: int|
            0 <= i <= j < b.skip_certs@.len() ==> b.skip_certs@[i].slot.0 <= b.skip_certs@[j].slot.0,
{
    let read = picked(entries.skip_certs@, skip_entry());
    lemma_sorted_members(read, cert);
    sorting_is_stable(read);
    readable_entries_are_kept(entries.skip_certs@, skip_entry(), cert);
    if exists|i: int|
        0 <= i < entries.skip_certs@.len() && #[trigger] entries.skip_certs@[i] == Some(
            VoteStorageEntry::SkipCert(cert),
        ) {
        let i = choose|i: int|
            0 <= i < entries.skip_certs@.len() && #[trigger] entries.skip_certs@[i] == Some(
                VoteStorageEntry::SkipCert(cert),
            );
        assert(skip_entry()(entries.skip_certs@[i]->Some_0) == Some(cert));
    }
    assert forall|i: int, j: int| 0 <= i <= j < b.skip_certs@.len() implies b.skip_certs@[i].slot.0
        <= b.skip_certs@[j].slot.0 by {
        assert(b.skip_certs@[i].rank() <= b.skip_certs@[j].rank());
    }
}

/// Votes go on being numbered where the stored ones end: the next number is one past
/// the largest, and only the largest possible number leaves no next one. Without
/// votes the number stays.
pub proof fn vote_numbers_go_on(entries: Seq<Option<VoteStorageEntry>>, db: SimplexDb)
    ensures
        ({
            let votes = by_rank(picked(entries, vote_entry()));
            &&& votes.len() == 0 ==> db.after(votes) == Some(db)
            &&& votes.len() > 0 ==> (db.after(votes) is None <==> exists|i: int|
                0 <= i < votes.len() && (#[trigger] votes[i]).seqno == i64::MAX)
            &&& votes.len() > 0 && db.after(votes) is Some ==> {
                let next = db.after(votes)->Some_0.next_vote_seqno;
                &&& forall|i: int| 0 <= i < votes.len() ==> (#[trigger] votes[i]).seqno < next
                &&& exists|i: int| 0 <= i < votes.len() && (#[trigger] votes[i]).seqno + 1 == next
            }
        }),
{
    let votes = by_rank(picked(entries, vote_entry()));
    new_votes_come_last(entries, db);
    sorting_is_stable(picked(entries, vote_entry()));
    if votes.len() > 0 {
        let n = votes.len() - 1;
        assert(votes[n] == votes.last());
        assert forall|i: int| 0 <= i < votes.len() implies (#[trigger] votes[i]).seqno
            <= votes[n].seqno by {
            assert(votes[i].rank() <= votes[n].rank());
        }
    }
}

/// A finalized block that follows the last one kept so far is kept; one that does
/// not is left out, and changes nothing for those behind it.
pub proof fn following_blocks_are_kept(
    records: Seq<FinalizedBlockRecord>,
    next: FinalizedBlockRecord,
    rest: Seq<FinalizedBlockRecord>,
)
    ensures
        ({
            let kept = chain_of(records);
            let follows = if kept.len() == 0 {
                next.parent is None
            } else {
                next.parent == Some(kept.last().candidate_id)
            };
            &&& follows ==> chain_of(records.push(next)) == kept.push(next)
            &&& follows ==> chain_of(records.push(next) + rest).contains(next)
            &&& !follows ==> chain_of(records.push(next) + rest) == chain_of(records + rest)
        }),
    decreases rest.len(),
{
    let longer = records.push(next);
    assert(longer.drop_last() =~= records);
    let kept = chain_of(records);
    if rest.len() == 0 {
        assert(longer + rest =~= longer);
        assert(records + rest =~= records);
        if next.parent == link_after(kept) {
            assert(chain_of(longer)[kept.len() as int] == next);
        }
    } else {
        let shorter = rest.drop_last();
        following_blocks_are_kept(records, next, shorter);
        assert((longer + rest).drop_last() =~= longer + shorter);
        assert((records + rest).drop_last() =~= records + shorter);
        if next.parent == link_after(kept) {
            let before = chain_of(longer + shorter);
            let i = choose|i: int| 0 <= i < before.len() && before[i] == next;
            assert(chain_of(longer + rest)[i] == next);
        }
    }
}

/// A stored certificate is read back with its bytes: a notarization certificate with
/// those of its signatures, and the others with those of the certificate.
pub proof fn stored_certificates_keep_their_bytes(
    key: UInt256,
    vote: Vote,
    cert_bytes: Vec<u8>,
    signature_bytes: Vec<u8>,
)
    ensures
        match VoteStorageEntry::read(
            key,
            StoredVote::Certificate { vote, cert_bytes, signature_bytes },
        ) {
            VoteStorageEntry::NotarCert(record) => {
                &&& vote matches Vote::Notarize(v) && record.candidate_id.slot == v.slot
                    && record.candidate_id.hash == v.block_hash
                &&& record.notar_cert_bytes == signature_bytes
            },
            VoteStorageEntry::FinalCert(record) => {
                &&& vote matches Vote::Finalize(v) && record.candidate_id.slot == v.slot
                    && record.candidate_id.hash == v.block_hash
                &&& record.cert_bytes == cert_bytes
            },
            VoteStorageEntry::SkipCert(record) => {
                &&& vote matches Vote::Skip(v) && record.slot == v.slot
                &&& record.cert_bytes == cert_bytes
            },
            VoteStorageEntry::Vote(_) => false,
        },
{
}

/// Loading fails only if the numbers of votes are used up or the first state of the
/// pool cannot be read, and then changes no more than the numbers.
pub proof fn loads_fail_for_a_reason(
    before: SimplexDb,
    entries: StoredEntries,
    r: Result<Bootstrap, LoadError>,
    after: SimplexDb,
)
    requires
        loaded(before, entries, first_pool_state(entries.pool_state@), r, after),
    ensures
        r is Ok <==> before.after(by_rank(picked(entries.votes@, vote_entry()))) is Some && (
        entries.pool_state@.len() == 0 || entries.pool_state@[0] is Some),
        r matches Ok(b) ==> b.pool_state == (if entries.pool_state@.len() == 0 {
            None
        } else {
            entries.pool_state@[0]
        }),
        r matches Err(e) ==> {
            ||| e is UnreadablePoolState && entries.pool_state@.len() > 0 && entries.pool_state@[0]
                is None
            ||| e is VoteNumbersUsedUp && after == before
        },
{
}

/// Votes are numbered in the order in which they are stored: a vote gets a larger number
/// than the one before, by one, as long as numbers are left; and a vote that is stored
/// after others were loaded gets a larger number than all of them.
pub proof fn votes_are_numbered_in_order(
    db: SimplexDb,
    entries: Seq<Option<VoteStorageEntry>>,
    loaded: SimplexDb,
)
    requires
        db.after(by_rank(picked(entries, vote_entry()))) == Some(loaded),
    ensures
        db.next_vote_seqno < i64::MAX ==> db.next_number() == db.next_vote_seqno + 1,
        forall|i: int|
            0 <= i < by_rank(picked(entries, vote_entry())).len() ==> (#[trigger] by_rank(
                picked(entries, vote_entry()),
            )[i]).seqno < loaded.next_vote_seqno,
{
    new_votes_come_last(entries, db);
}

/// Of several records that are looked for the first one is found, and one is found if
/// there is any.
pub proof fn first_match_is_found<T>(records: Seq<T>, wanted: spec_fn(T) -> bool, i: int)
    requires
        0 <= i < records.len(),
        wanted(records[i]),
        forall|j: int| 0 <= j < i ==> !wanted(#[trigger] records[j]),
    ensures
        first_wanted(records, wanted) == Some(records[i]),
    decreases i,
{
    if i > 0 {
        let rest = records.drop_first();
        assert(!wanted(records[0]));
        assert forall|j: int| 0 <= j < i - 1 implies !wanted(#[trigger] rest[j]) by {
            assert(rest[j] == records[j + 1]);
        }
        first_match_is_found(rest, wanted, i - 1);
    }
}

} // verus!
