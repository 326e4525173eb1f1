//! In-memory store of candidates.

use vstd::prelude::*;

use crate::assoc::{lookup, AssocMap};
use crate::block::{RawCandidateId, SlotIndex, ValidatorIndex};
use crate::chain::{BlockIdExt, UInt256};
use crate::time::TimePoint;

verus! {

/// Longest parent chain that is walked.
pub const MAX_CHAIN_DEPTH: u32 = 100_000;

/// Where the parent chain of a candidate leads.
#[derive(Clone, Copy, Debug, PartialEq, Eq, Structural)]
pub enum ParentTipResolution {
    /// Block of the first ancestor that has one of its own, or the accepted
    /// head for a candidate without a parent.
    Resolved(BlockIdExt),
    /// This ancestor is not in the book.
    MissingParent(RawCandidateId),
    /// There is no parent and no head, or no ancestor has a block of its own.
    Unresolved,
    /// The chain is longer than [`MAX_CHAIN_DEPTH`].
    TooDeep,
}

/// A candidate that was received.
#[derive(Debug)]
pub struct ReceivedCandidate {
    /// Slot of the candidate.
    pub slot: SlotIndex,
    /// Leader of that slot.
    pub source_idx: ValidatorIndex,
    /// Serialized input of the hash of the candidate's identifier; empty for an
    /// entry that only stands for a finalized block.
    pub candidate_hash_data_bytes: Vec<u8>,
    /// The candidate's block.
    pub block_id: BlockIdExt,
    /// Root hash of the block.
    pub root_hash: UInt256,
    /// File hash of the block.
    pub file_hash: UInt256,
    /// Block data; empty for a candidate without a block of its own.
    pub data: Vec<u8>,
    /// Collated data; empty for a candidate without a block of its own.
    pub collated_data: Vec<u8>,
    /// When the block was generated, in milliseconds, if known.
    pub gen_utime_ms: Option<u64>,
    /// When the candidate was received.
    pub receive_time: TimePoint,
    /// Whether the candidate has no block of its own.
    pub is_empty: bool,
    /// Parent of the candidate.
    pub parent_id: Option<RawCandidateId>,
    /// Whether the shard splits after the block, if the block data says so.
    pub before_split: Option<bool>,
}

/// The contents of a [`ReceivedCandidate`].
pub struct ReceivedView {
    pub slot: SlotIndex,
    pub source_idx: ValidatorIndex,
    pub candidate_hash_data_bytes: Seq<u8>,
    pub block_id: BlockIdExt,
    pub root_hash: UInt256,
    pub file_hash: UInt256,
    pub data: Seq<u8>,
    pub collated_data: Seq<u8>,
    pub gen_utime_ms: Option<u64>,
    pub receive_time: TimePoint,
    pub is_empty: bool,
    pub parent_id: Option<RawCandidateId>,
    pub before_split: Option<bool>,
}

impl View for ReceivedCandidate {
    type V = ReceivedView;

    open spec fn view(&self) -> ReceivedView {
        ReceivedView {
            slot: self.slot,
            source_idx: self.source_idx,
            candidate_hash_data_bytes: self.candidate_hash_data_bytes@,
            block_id: self.block_id,
            root_hash: self.root_hash,
            file_hash: self.file_hash,
            data: self.data@,
            collated_data: self.collated_data@,
            gen_utime_ms: self.gen_utime_ms,
            receive_time: self.receive_time,
            is_empty: self.is_empty,
            parent_id: self.parent_id,
            before_split: self.before_split,
        }
    }
}

/// The views of the values of a map.
pub open spec fn viewed<K, V: View>(m: Map<K, V>) -> Map<K, V::V> {
    Map::new(|k: K| m.dom().contains(k), |k: K| m[k]@)
}

/// The entries of `m` whose key `keep` selects.
pub open spec fn kept<K, V>(m: Map<K, V>, keep: spec_fn(K) -> bool) -> Map<K, V> {
    Map::new(|k: K| m.dom().contains(k) && keep(k), |k: K| m[k])
}

/// Selects the candidates of slots from `slot` on.
pub open spec fn ids_from(slot: SlotIndex) -> spec_fn(RawCandidateId) -> bool {
    |id: RawCandidateId| id.slot.0 >= slot.0
}

/// Selects the slots from `slot` on.
pub open spec fn slots_from(slot: SlotIndex) -> spec_fn(SlotIndex) -> bool {
    |s: SlotIndex| s.0 >= slot.0
}

/// The contents of a [`CandidateBook`].
#[verifier::ext_equal]
pub struct BookView {
    /// Received candidates.
    pub received: Map<RawCandidateId, ReceivedView>,
    /// Serialized candidates.
    pub cached: Map<RawCandidateId, Seq<u8>>,
    /// First candidate that was broadcast in a slot.
    pub seen: Map<SlotIndex, RawCandidateId>,
}

impl BookView {
    /// Whether the candidate is there with more than the block it stands for.
    pub open spec fn has_real_body(self, id: RawCandidateId) -> bool {
        self.received.dom().contains(id) && self.received[id].candidate_hash_data_bytes.len() > 0
    }

    /// Whether the candidate is there only to stand for its finalized block.
    pub open spec fn is_stub(self, id: RawCandidateId) -> bool {
        self.received.dom().contains(id) && self.received[id].candidate_hash_data_bytes.len() == 0
    }

    /// The book once a broadcast of candidate `id` in `slot` was recorded.
    pub open spec fn with_broadcast(self, slot: SlotIndex, id: RawCandidateId) -> BookView {
        if self.seen.dom().contains(slot) {
            self
        } else {
            BookView { seen: self.seen.insert(slot, id), ..self }
        }
    }
}

/// Where at most `fuel` steps along the parent chain lead from `current`.
pub open spec fn chain_tip(
    received: Map<RawCandidateId, ReceivedView>,
    current: RawCandidateId,
    fuel: nat,
) -> ParentTipResolution
    decreases fuel,
{
    if fuel == 0 {
        ParentTipResolution::TooDeep
    } else if !received.dom().contains(current) {
        ParentTipResolution::MissingParent(current)
    } else if !received[current].is_empty {
        ParentTipResolution::Resolved(received[current].block_id)
    } else {
        match received[current].parent_id {
            None => ParentTipResolution::Unresolved,
            Some(next) => chain_tip(received, next, (fuel - 1) as nat),
        }
    }
}

/// Where the parent chain of a candidate leads; `accepted_head` stands in for a
/// candidate without a parent.
pub open spec fn parent_tip(
    received: Map<RawCandidateId, ReceivedView>,
    parent_id: Option<RawCandidateId>,
    accepted_head: Option<BlockIdExt>,
) -> ParentTipResolution {
    match parent_id {
        Some(p) => chain_tip(received, p, MAX_CHAIN_DEPTH as nat),
        None => match accepted_head {
            Some(head) => ParentTipResolution::Resolved(head),
            None => ParentTipResolution::Unresolved,
        },
    }
}

/// The candidate `k` steps up the parent chain, as far as the book knows it.
pub open spec fn ancestor(
    received: Map<RawCandidateId, ReceivedView>,
    start: RawCandidateId,
    k: nat,
) -> Option<RawCandidateId>
    decreases k,
{
    if k == 0 {
        Some(start)
    } else {
        match ancestor(received, start, (k - 1) as nat) {
            None => None,
            Some(id) => if received.dom().contains(id) {
                received[id].parent_id
            } else {
                None
            },
        }
    }
}

/// Store of candidates.
pub struct CandidateBook {
    received_candidates: AssocMap<RawCandidateId, ReceivedCandidate>,
    candidate_data_cache: AssocMap<RawCandidateId, Vec<u8>>,
    seen_broadcast_candidates: AssocMap<SlotIndex, RawCandidateId>,
}

impl View for CandidateBook {
    type V = BookView;

    closed spec fn view(&self) -> BookView {
        BookView {
            received: viewed(self.received_candidates@),
            cached: viewed(self.candidate_data_cache@),
            seen: self.seen_broadcast_candidates@,
        }
    }
}

impl CandidateBook {
    /// The empty book.
    pub fn new() -> (r: Self)
        ensures
            r@.received == Map::<RawCandidateId, ReceivedView>::empty(),
            r@.cached == Map::<RawCandidateId, Seq<u8>>::empty(),
            r@.seen == Map::<SlotIndex, RawCandidateId>::empty(),
    {
        let r = CandidateBook {
            received_candidates: AssocMap::new(),
            candidate_data_cache: AssocMap::new(),
            seen_broadcast_candidates: AssocMap::new(),
        };
        assert(r@.received =~= Map::<RawCandidateId, ReceivedView>::empty());
        assert(r@.cached =~= Map::<RawCandidateId, Seq<u8>>::empty());
        r
    }

    /// The received candidate with this identifier.
    pub fn received(&self, id: &RawCandidateId) -> (r: Option<&ReceivedCandidate>)
        ensures
            r is Some <==> self@.received.dom().contains(*id),
            r matches Some(c) ==> c@ == self@.received[*id],
    {
        self.received_candidates.get(id)
    }

    /// Whether a candidate with this identifier was received.
    pub fn contains_received(&self, id: &RawCandidateId) -> (r: bool)
        ensures
            r == self@.received.dom().contains(*id),
    {
        self.received_candidates.contains_key(id)
    }

    /// Number of received candidates.
    pub fn received_count(&self) -> (n: usize)
        ensures
            self@.received.dom().finite(),
            n == self@.received.dom().len(),
    {
        assert(self@.received.dom() =~= self.received_candidates@.dom());
        self.received_candidates.len()
    }

    /// Identifiers of all received candidates, in no particular order.
    pub fn received_ids(&self) -> (r: Vec<RawCandidateId>)
        ensures
            r@.no_duplicates(),
            r@.to_set() == self@.received.dom(),
    {
        assert(self@.received.dom() =~= self.received_candidates@.dom());
        self.received_candidates.keys()
    }

    /// All received candidates with their identifiers, in no particular order.
    pub fn iter_received(&self) -> (r: Vec<(RawCandidateId, &ReceivedCandidate)>)
        ensures
            r@.map_values(|e: (RawCandidateId, &ReceivedCandidate)| e.0).no_duplicates(),
            r@.map_values(|e: (RawCandidateId, &ReceivedCandidate)| e.0).to_set()
                == self@.received.dom(),
            forall|i: int|
                0 <= i < r@.len() ==> (#[trigger] r@[i]).1@ == self@.received[r@[i].0],
    {
        let ids: Vec<RawCandidateId> = self.received_ids();
        let ghost name = |e: (RawCandidateId, &ReceivedCandidate)| e.0;
        let mut out: Vec<(RawCandidateId, &ReceivedCandidate)> = Vec::new();
        let mut i: usize = 0;
        while i < ids.len()
            invariant
                i <= ids@.len(),
                out@.len() == i,
                ids@.to_set() == self@.received.dom(),
                forall|j: int| 0 <= j < i ==> (#[trigger] out@[j]).0 == ids@[j],
                forall|j: int|
                    0 <= j < i ==> (#[trigger] out@[j]).1@ == self@.received[out@[j].0],
            decreases ids@.len() - i,
        {
            assert(ids@.to_set().contains(ids@[i as int]));
            match self.received(&ids[i]) {
                Some(c) => out.push((ids[i], c)),
                None => {},
            }
            i += 1;
        }
        assert(out@.map_values(name) =~= ids@);
        out
    }

    /// Whether the candidate is there with more than the block it stands for.
    pub fn has_real_body(&self, id: &RawCandidateId) -> (r: bool)
        ensures
            r == self@.has_real_body(*id),
    {
        match self.received(id) {
            Some(c) => c.candidate_hash_data_bytes.len() > 0,
            None => false,
        }
    }

    /// Some received candidate with this block.
    pub fn find_received_by_block_id(&self, block_id: &BlockIdExt) -> (r: Option<RawCandidateId>)
        ensures
            match r {
                Some(id) => self@.received.dom().contains(id) && self@.received[id].block_id
                    == *block_id,
                None => forall|id: RawCandidateId| #[trigger]
                    self@.received.dom().contains(id) ==> self@.received[id].block_id != *block_id,
            },
    {
        let ids: Vec<RawCandidateId> = self.received_candidates.keys();
        let mut i: usize = 0;
        while i < ids.len()
            invariant
                i <= ids@.len(),
                forall|k: RawCandidateId|
                    ids@.contains(k) <==> self.received_candidates@.dom().contains(k),
                forall|j: int|
                    0 <= j < i ==> self@.received[#[trigger] ids@[j]].block_id != *block_id,
            decreases ids@.len() - i,
        {
            assert(ids@.contains(ids@[i as int]));
            match self.received(&ids[i]) {
                Some(c) => {
                    if c.block_id == *block_id {
                        return Some(ids[i]);
                    }
                },
                None => {},
            }
            i += 1;
        }
        assert forall|id: RawCandidateId| #[trigger]
            self@.received.dom().contains(id) implies self@.received[id].block_id != *block_id by {
            assert(ids@.contains(id));
            let j = choose|j: int| 0 <= j < ids@.len() && ids@[j] == id;
            assert(self@.received[ids@[j]].block_id != *block_id);
        }
        None
    }

    /// Stores a received candidate in place of an earlier one.
    pub fn insert_received(&mut self, id: RawCandidateId, record: ReceivedCandidate) -> (r: Option<
        ReceivedCandidate,
    >)
        ensures
            final(self)@ == (BookView {
                received: old(self)@.received.insert(id, record@),
                ..old(self)@
            }),
            match r {
                Some(c) => lookup(old(self)@.received, id) == Some(c@),
                None => !old(self)@.received.dom().contains(id),
            },
    {
        let r = self.received_candidates.insert(id, record);
        assert(self@.received =~= old(self)@.received.insert(id, record@));
        r
    }

    /// Where the parent chain of a candidate leads; `accepted_head` stands in
    /// for a candidate without a parent.
    pub fn resolve_parent_tip(
        &self,
        parent_id: Option<&RawCandidateId>,
        accepted_head: Option<&BlockIdExt>,
    ) -> (r: ParentTipResolution)
        ensures
            r == parent_tip(
                self@.received,
                match parent_id {
                    Some(p) => Some(*p),
                    None => None,
                },
                match accepted_head {
                    Some(head) => Some(*head),
                    None => None,
                },
            ),
            r == (match parent_id {
                Some(p) => chain_tip(self@.received, *p, MAX_CHAIN_DEPTH as nat),
                None => match accepted_head {
                    Some(head) => ParentTipResolution::Resolved(*head),
                    None => ParentTipResolution::Unresolved,
                },
            }),
    {
        match parent_id {
            Some(p) => self.walk_parent_chain(p),
            None => match accepted_head {
                Some(head) => ParentTipResolution::Resolved(*head),
                None => ParentTipResolution::Unresolved,
            },
        }
    }

    /// Where the parent chain from `start` leads.
    fn walk_parent_chain(&self, start: &RawCandidateId) -> (r: ParentTipResolution)
        ensures
            r == chain_tip(self@.received, *start, MAX_CHAIN_DEPTH as nat),
    {
        let mut current: RawCandidateId = *start;
        let mut depth: u32 = 0;
        loop
            invariant
                depth <= MAX_CHAIN_DEPTH,
                chain_tip(self@.received, *start, MAX_CHAIN_DEPTH as nat) == chain_tip(
                    self@.received,
                    current,
                    (MAX_CHAIN_DEPTH - depth) as nat,
                ),
            decreases MAX_CHAIN_DEPTH - depth,
        {
            if depth == MAX_CHAIN_DEPTH {
                return ParentTipResolution::TooDeep;
            }
            depth += 1;
            match self.received(&current) {
                None => {
                    return ParentTipResolution::MissingParent(current);
                },
                Some(received) => {
                    if !received.is_empty {
                        return ParentTipResolution::Resolved(received.block_id);
                    }
                    match received.parent_id {
                        Some(next) => {
                            current = next;
                        },
                        None => {
                            return ParentTipResolution::Unresolved;
                        },
                    }
                },
            }
        }
    }

    /// The serialized candidate with this identifier.
    pub fn cached_data(&self, id: &RawCandidateId) -> (r: Option<&Vec<u8>>)
        ensures
            r is Some <==> self@.cached.dom().contains(*id),
            r matches Some(b) ==> b@ == self@.cached[*id],
    {
        self.candidate_data_cache.get(id)
    }

    /// Stores a serialized candidate in place of an earlier one.
    pub fn insert_cached_data(&mut self, id: RawCandidateId, bytes: Vec<u8>) -> (r: Option<Vec<u8>>)
        ensures
            final(self)@ == (BookView {
                cached: old(self)@.cached.insert(id, bytes@),
                ..old(self)@
            }),
            match r {
                Some(b) => lookup(old(self)@.cached, id) == Some(b@),
                None => !old(self)@.cached.dom().contains(id),
            },
    {
        let r = self.candidate_data_cache.insert(id, bytes);
        assert(self@.cached =~= old(self)@.cached.insert(id, bytes@));
        r
    }

    /// The first candidate that was broadcast in `slot`.
    pub fn seen_broadcast(&self, slot: SlotIndex) -> (r: Option<&RawCandidateId>)
        ensures
            r is Some <==> self@.seen.dom().contains(slot),
            r matches Some(id) ==> *id == self@.seen[slot],
    {
        self.seen_broadcast_candidates.get(&slot)
    }

    /// Records `id` as the first candidate that was broadcast in `slot`, unless
    /// there was one before; that one stays and is handed back.
    pub fn insert_seen_broadcast(&mut self, slot: SlotIndex, id: RawCandidateId) -> (r: Option<
        RawCandidateId,
    >)
        ensures
            r == lookup(old(self)@.seen, slot),
            final(self)@ == old(self)@.with_broadcast(slot, id),
    {
        match self.seen_broadcast_candidates.get(&slot) {
            Some(existing) => {
                return Some(*existing);
            },
            None => {},
        }
        self.seen_broadcast_candidates.insert(slot, id);
        None
    }

    /// Drops the serialized candidates and the first broadcasts of the slots
    /// below `up_to_slot`. Received candidates stay.
    pub fn prune_below(&mut self, up_to_slot: SlotIndex)
        ensures
            final(self)@ == (BookView {
                received: old(self)@.received,
                cached: kept(old(self)@.cached, ids_from(up_to_slot)),
                seen: kept(old(self)@.seen, slots_from(up_to_slot)),
            }),
    {
        let limit: u32 = up_to_slot.0;
        let keep_id = |id: &RawCandidateId, _bytes: &Vec<u8>| -> (b: bool)
            ensures b == (id.slot.0 >= limit)
        {
            id.slot.0 >= limit
        };
        let keep_slot = |slot: &SlotIndex, _id: &RawCandidateId| -> (b: bool)
            ensures b == (slot.0 >= limit)
        {
            slot.0 >= limit
        };
        self.candidate_data_cache.retain(keep_id);
        self.seen_broadcast_candidates.retain(keep_slot);
        assert(self@.cached =~= kept(old(self)@.cached, ids_from(up_to_slot)));
        assert(self@.seen =~= kept(old(self)@.seen, slots_from(up_to_slot)));
    }

    /// Keeps the received candidates for which `keep` answers `true`.
    pub fn retain_received<F: Fn(&RawCandidateId, &ReceivedCandidate) -> bool>(&mut self, keep: F)
        requires
            forall|id: RawCandidateId, c: ReceivedCandidate| call_requires(keep, (&id, &c)),
        ensures
            final(self)@.cached == old(self)@.cached,
            final(self)@.seen == old(self)@.seen,
            forall|id: RawCandidateId| #[trigger]
                final(self)@.received.dom().contains(id) ==> old(self)@.received.dom().contains(id)
                    && final(self)@.received[id] == old(self)@.received[id] && exists|
                    c: ReceivedCandidate,
                |
                    c@ == old(self)@.received[id] && call_ensures(keep, (&id, &c), true),
            forall|id: RawCandidateId| #[trigger]
                old(self)@.received.dom().contains(id) && !final(self)@.received.dom().contains(id)
                    ==> exists|c: ReceivedCandidate|
                    c@ == old(self)@.received[id] && call_ensures(keep, (&id, &c), false),
    {
        self.received_candidates.retain(keep);
    }

    /// Whether a serialized candidate with this identifier is there.
    pub fn contains_cached_data(&self, id: &RawCandidateId) -> (r: bool)
        ensures
            r == self@.cached.dom().contains(*id),
    {
        self.candidate_data_cache.contains_key(id)
    }

    /// Whether a candidate was broadcast in `slot`.
    pub fn contains_seen_broadcast(&self, slot: SlotIndex) -> (r: bool)
        ensures
            r == self@.seen.dom().contains(slot),
    {
        self.seen_broadcast_candidates.contains_key(&slot)
    }
}

proof fn lemma_ancestor_shift(
    received: Map<RawCandidateId, ReceivedView>,
    start: RawCandidateId,
    k: nat,
)
    requires
        received.dom().contains(start),
        received[start].parent_id is Some,
    ensures
        ancestor(received, start, k + 1) == ancestor(
            received,
            received[start].parent_id->Some_0,
            k,
        ),
    decreases k,
{
    reveal_with_fuel(ancestor, 2);
    if k > 0 {
        lemma_ancestor_shift(received, start, (k - 1) as nat);
    }
}

/// The tip of a parent chain is the block of the nearest ancestor that has a
/// block of its own: all nearer ones are in the book and have none.
pub proof fn tip_is_nearest_block(
    received: Map<RawCandidateId, ReceivedView>,
    start: RawCandidateId,
    fuel: nat,
    block: BlockIdExt,
)
    requires
        chain_tip(received, start, fuel) == ParentTipResolution::Resolved(block),
    ensures
        exists|k: nat|
            {
                &&& k < fuel
                &&& #[trigger] ancestor(received, start, k) is Some
                &&& received.dom().contains(ancestor(received, start, k)->Some_0)
                &&& !received[ancestor(received, start, k)->Some_0].is_empty
                &&& received[ancestor(received, start, k)->Some_0].block_id == block
                &&& forall|j: nat|
                    j < k ==> #[trigger] ancestor(received, start, j) is Some
                        && received.dom().contains(ancestor(received, start, j)->Some_0)
                        && received[ancestor(received, start, j)->Some_0].is_empty
            },
    decreases fuel,
{
    if received[start].is_empty {
        let next = received[start].parent_id->Some_0;
        tip_is_nearest_block(received, next, (fuel - 1) as nat, block);
        let k = choose|k: nat|
            {
                &&& k < fuel - 1
                &&& #[trigger] ancestor(received, next, k) is Some
                &&& received.dom().contains(ancestor(received, next, k)->Some_0)
                &&& !received[ancestor(received, next, k)->Some_0].is_empty
                &&& received[ancestor(received, next, k)->Some_0].block_id == block
                &&& forall|j: nat|
                    j < k ==> #[trigger] ancestor(received, next, j) is Some
                        && received.dom().contains(ancestor(received, next, j)->Some_0)
                        && received[ancestor(received, next, j)->Some_0].is_empty
            };
        lemma_ancestor_shift(received, start, k);
        assert forall|j: nat| j < k + 1 implies #[trigger] ancestor(received, start, j) is Some
            && received.dom().contains(ancestor(received, start, j)->Some_0)
            && received[ancestor(received, start, j)->Some_0].is_empty by {
            if j > 0 {
                lemma_ancestor_shift(received, start, (j - 1) as nat);
                assert(ancestor(received, next, (j - 1) as nat) is Some);
            }
        }
        assert(ancestor(received, start, k + 1) is Some);
    } else {
        assert(ancestor(received, start, 0) is Some);
    }
}

/// A parent chain that never ends (all ancestors are in the book and none has
/// a block of its own, as on a cycle) is reported as too deep.
pub proof fn endless_chain_is_too_deep(
    received: Map<RawCandidateId, ReceivedView>,
    start: RawCandidateId,
    fuel: nat,
)
    requires
        forall|j: nat| #[trigger]
            ancestor(received, start, j) is Some && received.dom().contains(
                ancestor(received, start, j)->Some_0,
            ) && received[ancestor(received, start, j)->Some_0].is_empty,
    ensures
        chain_tip(received, start, fuel) == ParentTipResolution::TooDeep,
    decreases fuel,
{
    if fuel > 0 {
        assert(ancestor(received, start, 0) is Some);
        assert(ancestor(received, start, 1) is Some);
        reveal_with_fuel(ancestor, 2);
        let next = received[start].parent_id->Some_0;
        assert forall|j: nat| #[trigger]
            ancestor(received, next, j) is Some && received.dom().contains(
                ancestor(received, next, j)->Some_0,
            ) && received[ancestor(received, next, j)->Some_0].is_empty by {
            lemma_ancestor_shift(received, start, j);
            assert(ancestor(received, start, j + 1) is Some);
        }
        endless_chain_is_too_deep(received, next, (fuel - 1) as nat);
    }
}

/// The first candidate that was broadcast in a slot stays, whatever is
/// broadcast later, in this slot or another.
pub proof fn first_broadcast_stays(
    book: BookView,
    slot: SlotIndex,
    first: RawCandidateId,
    other_slot: SlotIndex,
    later: RawCandidateId,
)
    requires
        !book.seen.dom().contains(slot),
    ensures
        ({
            let after = book.with_broadcast(slot, first).with_broadcast(other_slot, later);
            after.seen.dom().contains(slot) && after.seen[slot] == first
        }),
{
}

/// Pruning to a slot and then to a later one is pruning to the later one.
pub proof fn pruning_composes<V>(m: Map<RawCandidateId, V>, a: SlotIndex, b: SlotIndex)
    requires
        a.0 <= b.0,
    ensures
        kept(kept(m, ids_from(a)), ids_from(b)) == kept(m, ids_from(b)),
{
    assert(kept(kept(m, ids_from(a)), ids_from(b)) =~= kept(m, ids_from(b)));
}

/// Where the parent chain leads is found within reach: the nearest candidate that
/// has a block of its own, is not in the book, or has no parent decides. A block
/// of its own is the tip; a candidate that is not in the book is reported as
/// missing; and without a parent the chain leads nowhere.
pub proof fn tips_are_found(
    received: Map<RawCandidateId, ReceivedView>,
    start: RawCandidateId,
    fuel: nat,
    k: nat,
)
    requires
        k < fuel,
        ancestor(received, start, k) is Some,
        forall|j: nat|
            j < k ==> (#[trigger] ancestor(received, start, j) matches Some(a)
                && received.dom().contains(a) && received[a].is_empty),
    ensures
        ({
            let a = ancestor(received, start, k)->Some_0;
            let tip = chain_tip(received, start, fuel);
            &&& !received.dom().contains(a) ==> tip == ParentTipResolution::MissingParent(a)
            &&& received.dom().contains(a) && !received[a].is_empty ==> tip
                == ParentTipResolution::Resolved(received[a].block_id)
            &&& received.dom().contains(a) && received[a].is_empty && received[a].parent_id is None
                ==> tip == ParentTipResolution::Unresolved
        }),
    decreases fuel,
{
    if k > 0 {
        assert(ancestor(received, start, 0) == Some(start));
        assert(received.dom().contains(start) && received[start].is_empty);
        lemma_first_link(received, start, k);
        let next = received[start].parent_id->Some_0;
        lemma_ancestor_shift(received, start, (k - 1) as nat);
        assert forall|j: nat| j < k - 1 implies (#[trigger] ancestor(received, next, j) matches Some(
            a,
        ) && received.dom().contains(a) && received[a].is_empty) by {
            lemma_ancestor_shift(received, start, j);
            assert(ancestor(received, start, j + 1) is Some);
        }
        tips_are_found(received, next, (fuel - 1) as nat, (k - 1) as nat);
    }
}

proof fn lemma_first_link(
    received: Map<RawCandidateId, ReceivedView>,
    start: RawCandidateId,
    k: nat,
)
    requires
        k > 0,
        ancestor(received, start, k) is Some,
    ensures
        received.dom().contains(start),
        received[start].parent_id is Some,
    decreases k,
{
    reveal_with_fuel(ancestor, 2);
    if k > 1 {
        lemma_first_link(received, start, (k - 1) as nat);
    }
}

/// Pruning keeps exactly the entries of slots from the given one on, as they are.
pub proof fn pruning_keeps_later_slots<V>(
    m: Map<RawCandidateId, V>,
    slots: Map<SlotIndex, V>,
    from: SlotIndex,
    id: RawCandidateId,
)
    ensures
        kept(m, ids_from(from)).dom().contains(id) <==> m.dom().contains(id) && id.slot.0 >= from.0,
        kept(m, ids_from(from)).dom().contains(id) ==> kept(m, ids_from(from))[id] == m[id],
        kept(slots, slots_from(from)).dom().contains(id.slot) <==> slots.dom().contains(id.slot)
            && id.slot.0 >= from.0,
        kept(slots, slots_from(from)).dom().contains(id.slot) ==> kept(slots, slots_from(from))[
            id.slot] == slots[id.slot],
{
}

/// A candidate without a parent follows the accepted head, if there is one; one with a
/// parent follows the parent's own block, or, if the parent has none of its own, what the
/// parent's parent leads to, and never the accepted head.
pub proof fn tips_follow_parents(
    received: Map<RawCandidateId, ReceivedView>,
    parent: RawCandidateId,
    accepted_head: Option<BlockIdExt>,
    other_head: Option<BlockIdExt>,
)
    ensures
        parent_tip(received, None, accepted_head) == (match accepted_head {
            Some(head) => ParentTipResolution::Resolved(head),
            None => ParentTipResolution::Unresolved,
        }),
        !received.dom().contains(parent) ==> parent_tip(received, Some(parent), accepted_head)
            == ParentTipResolution::MissingParent(parent),
        received.dom().contains(parent) && !received[parent].is_empty ==> parent_tip(
            received,
            Some(parent),
            accepted_head,
        ) == ParentTipResolution::Resolved(received[parent].block_id),
        received.dom().contains(parent) && received[parent].is_empty && received[parent].parent_id
            is None ==> parent_tip(received, Some(parent), accepted_head)
            == ParentTipResolution::Unresolved,
        parent_tip(received, Some(parent), accepted_head) == parent_tip(
            received,
            Some(parent),
            other_head,
        ),
{
}

} // verus!
