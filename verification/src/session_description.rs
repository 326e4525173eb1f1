//! Fixed parameters of a session: its validators, its shard and its windows.

use vstd::prelude::*;

use crate::block::{SlotIndex, ValidatorIndex, WindowIndex};
use crate::chain::ShardIdent;

verus! {

/// Sum of the weights `w[i]` with `i < n` and `p(i)`.
pub open spec fn sum_where(w: Seq<u64>, p: spec_fn(int) -> bool, n: nat) -> nat
    decreases n,
{
    if n == 0 {
        0
    } else {
        sum_where(w, p, (n - 1) as nat) + if p(n - 1) {
            w[n - 1] as nat
        } else {
            0
        }
    }
}

/// Sum of all weights.
pub open spec fn total_of(w: Seq<u64>) -> nat {
    sum_where(w, |i: int| true, w.len())
}

/// Sum of the weights of the listed validators, each as often as it is listed.
pub open spec fn weight_of(w: Seq<u64>, list: Seq<ValidatorIndex>) -> nat
    decreases list.len(),
{
    if list.len() == 0 {
        0
    } else {
        weight_of(w, list.drop_last()) + w[list.last().0 as int] as nat
    }
}

/// Whether validator `i` is listed.
pub open spec fn listed(list: Seq<ValidatorIndex>) -> spec_fn(int) -> bool {
    |i: int| exists|k: int| 0 <= k < list.len() && (#[trigger] list[k]).0 == i
}

/// Whether the listed validators are `n` validators' positions, each at most once.
pub open spec fn distinct_voters(list: Seq<ValidatorIndex>, n: nat) -> bool {
    &&& forall|k: int| 0 <= k < list.len() ==> (#[trigger] list[k]).0 < n
    &&& forall|j: int, k: int| 0 <= j < k < list.len() ==> list[j] != list[k]
}

/// Selecting more validators does not lower the sum.
pub proof fn lemma_sum_where_mono(
    w: Seq<u64>,
    p: spec_fn(int) -> bool,
    q: spec_fn(int) -> bool,
    n: nat,
)
    requires
        forall|i: int| 0 <= i < n && #[trigger] p(i) ==> q(i),
    ensures
        sum_where(w, p, n) <= sum_where(w, q, n),
    decreases n,
{
    if n > 0 {
        lemma_sum_where_mono(w, p, q, (n - 1) as nat);
    }
}

/// Selecting one more validator adds its weight.
pub proof fn lemma_sum_where_add(
    w: Seq<u64>,
    p: spec_fn(int) -> bool,
    q: spec_fn(int) -> bool,
    k: int,
    n: nat,
)
    requires
        0 <= k < n,
        !p(k),
        q(k),
        forall|i: int| 0 <= i < n && i != k ==> #[trigger] p(i) == q(i),
    ensures
        sum_where(w, q, n) == sum_where(w, p, n) + w[k] as nat,
    decreases n,
{
    if n > 0 {
        if k == n - 1 {
            lemma_sum_where_mono(w, p, q, (n - 1) as nat);
            lemma_sum_where_mono(w, q, p, (n - 1) as nat);
        } else {
            lemma_sum_where_add(w, p, q, k, (n - 1) as nat);
            assert(p(n - 1) == q(n - 1));
        }
    }
}

/// The sums over two selections are the sums over their union and their overlap.
pub proof fn lemma_sum_where_union(
    w: Seq<u64>,
    p: spec_fn(int) -> bool,
    q: spec_fn(int) -> bool,
    n: nat,
)
    ensures
        sum_where(w, p, n) + sum_where(w, q, n) == sum_where(w, |i: int| p(i) || q(i), n)
            + sum_where(w, |i: int| p(i) && q(i), n),
    decreases n,
{
    if n > 0 {
        lemma_sum_where_union(w, p, q, (n - 1) as nat);
    }
}

/// The weight of a list of different validators is the sum over the selection
/// that it makes, and at most the total.
pub proof fn lemma_weight_of_distinct(w: Seq<u64>, list: Seq<ValidatorIndex>)
    requires
        distinct_voters(list, w.len()),
    ensures
        weight_of(w, list) == sum_where(w, listed(list), w.len()),
        weight_of(w, list) <= total_of(w),
    decreases list.len(),
{
    let p = listed(list);
    if list.len() == 0 {
        let none = |i: int| false;
        lemma_sum_where_mono(w, p, none, w.len());
        lemma_sum_where_none(w, w.len());
    } else {
        let rest = list.drop_last();
        let k = list.last().0 as int;
        assert(distinct_voters(rest, w.len())) by {
            assert(forall|j: int| 0 <= j < rest.len() ==> rest[j] == list[j]);
        }
        lemma_weight_of_distinct(w, rest);
        let r = listed(rest);
        assert(!r(k)) by {
            if r(k) {
                let j = choose|j: int| 0 <= j < rest.len() && (#[trigger] rest[j]).0 == k;
                assert(list[j] != list[list.len() - 1]);
            }
        }
        assert(p(k)) by {
            assert(list[list.len() - 1].0 == k);
        }
        assert forall|i: int| 0 <= i < w.len() && i != k implies #[trigger] r(i) == p(i) by {
            if r(i) {
                let j = choose|j: int| 0 <= j < rest.len() && (#[trigger] rest[j]).0 == i;
                assert(list[j].0 == i);
            }
            if p(i) {
                let j = choose|j: int| 0 <= j < list.len() && (#[trigger] list[j]).0 == i;
                assert(rest[j].0 == i);
            }
        }
        lemma_sum_where_add(w, r, p, k, w.len());
    }
    lemma_sum_where_mono(w, p, |i: int| true, w.len());
}

proof fn lemma_sum_where_none(w: Seq<u64>, n: nat)
    ensures
        sum_where(w, |i: int| false, n) == 0,
    decreases n,
{
    if n > 0 {
        lemma_sum_where_none(w, (n - 1) as nat);
    }
}

/// A longer list weighs at least as much.
pub proof fn lemma_weight_of_prefix(w: Seq<u64>, list: Seq<ValidatorIndex>, k: int)
    requires
        0 <= k <= list.len(),
    ensures
        weight_of(w, list.take(k)) <= weight_of(w, list),
    decreases list.len(),
{
    if k == list.len() {
        assert(list.take(k) =~= list);
    } else {
        assert(list.drop_last().take(k) =~= list.take(k));
        lemma_weight_of_prefix(w, list.drop_last(), k);
    }
}

/// Fixed parameters of a session.
#[derive(Debug)]
pub struct SessionDescription {
    /// Voting weight of each validator.
    weights: Vec<u64>,
    /// Weight that a certificate needs.
    threshold_66: u64,
    /// Validators that lead the windows in turn.
    rotation: Vec<ValidatorIndex>,
    /// Position of the local validator.
    self_idx: ValidatorIndex,
    /// Shard of the session.
    shard: ShardIdent,
    /// Slots in a leader window.
    slots_per_leader_window: u32,
    /// Seqno of the first block of the session.
    initial_block_seqno: u32,
}

impl SessionDescription {
    /// The weights sum up to a 64-bit number, a certificate needs two thirds of
    /// it, some validator leads, and windows have slots.
    #[verifier::type_invariant]
    spec fn valid(self) -> bool {
        &&& total_of(self.weights@) <= u64::MAX
        &&& 3 * self.threshold_66 >= 2 * total_of(self.weights@)
        &&& self.rotation@.len() > 0
        &&& self.slots_per_leader_window > 0
    }

    /// Voting weight of each validator.
    pub closed spec fn weights(self) -> Seq<u64> {
        self.weights@
    }

    /// Weight that a certificate needs.
    pub closed spec fn threshold(self) -> u64 {
        self.threshold_66
    }

    /// A certificate needs at least two thirds of the total weight.
    pub open spec fn needs_two_thirds(self) -> bool {
        3 * self.threshold() >= 2 * total_of(self.weights())
    }

    /// Validators that lead the windows in turn.
    pub closed spec fn rotation(self) -> Seq<ValidatorIndex> {
        self.rotation@
    }

    /// Position of the local validator.
    pub closed spec fn local(self) -> ValidatorIndex {
        self.self_idx
    }

    /// Shard of the session.
    pub closed spec fn shard_ident(self) -> ShardIdent {
        self.shard
    }

    /// Slots in a leader window.
    pub closed spec fn window_len(self) -> u32 {
        self.slots_per_leader_window
    }

    /// Seqno of the first block of the session.
    pub closed spec fn first_seqno(self) -> u32 {
        self.initial_block_seqno
    }

    /// The validator that leads `slot`.
    pub open spec fn leader(self, slot: SlotIndex) -> ValidatorIndex {
        self.rotation()[slot.window(self.window_len()).0 as int % self.rotation().len() as int]
    }

    /// The window of `slot`.
    pub open spec fn window(self, slot: SlotIndex) -> WindowIndex {
        slot.window(self.window_len())
    }

    /// The description with the given parameters, unless the weights sum up to
    /// more than 64 bits, the threshold is less than two thirds of their sum,
    /// nobody leads, or windows would be empty.
    pub fn new(
        weights: Vec<u64>,
        threshold_66: u64,
        rotation: Vec<ValidatorIndex>,
        self_idx: ValidatorIndex,
        shard: ShardIdent,
        slots_per_leader_window: u32,
        initial_block_seqno: u32,
    ) -> (r: Option<SessionDescription>)
        ensures
            r is Some <==> total_of(weights@) <= u64::MAX && 3 * threshold_66 >= 2 * total_of(
                weights@,
            ) && rotation@.len() > 0 && slots_per_leader_window > 0,
            r matches Some(d) ==> {
                &&& d.needs_two_thirds()
                &&& d.weights() == weights@
                &&& d.threshold() == threshold_66
                &&& d.rotation() == rotation@
                &&& d.local() == self_idx
                &&& d.shard_ident() == shard
                &&& d.window_len() == slots_per_leader_window
                &&& d.first_seqno() == initial_block_seqno
            },
    {
        let mut total: u64 = 0;
        let mut i: usize = 0;
        let ghost all = |i: int| true;
        while i < weights.len()
            invariant
                i <= weights@.len(),
                total == sum_where(weights@, all, i as nat),
                all == (|i: int| true),
            decreases weights@.len() - i,
        {
            match total.checked_add(weights[i]) {
                Some(t) => {
                    total = t;
                },
                None => {
                    proof {
                        lemma_sum_where_grows(weights@, all, (i + 1) as nat, weights@.len());
                    }
                    return None;
                },
            }
            i += 1;
        }
        if (threshold_66 as u128) * 3 < (total as u128) * 2 {
            return None;
        }
        if rotation.len() == 0 || slots_per_leader_window == 0 {
            return None;
        }
        Some(
            SessionDescription {
                weights,
                threshold_66,
                rotation,
                self_idx,
                shard,
                slots_per_leader_window,
                initial_block_seqno,
            },
        )
    }

    /// Number of validators.
    pub fn get_total_nodes(&self) -> (r: usize)
        ensures
            r == self.weights().len(),
            total_of(self.weights()) <= u64::MAX,
    {
        proof {
            use_type_invariant(self);
        }
        self.weights.len()
    }

    /// Voting weight of a validator.
    pub fn get_node_weight(&self, idx: ValidatorIndex) -> (r: u64)
        requires
            idx.0 < self.weights().len(),
        ensures
            r == self.weights()[idx.0 as int],
    {
        self.weights[idx.0 as usize]
    }

    /// Weight that a certificate needs.
    pub fn get_threshold_66(&self) -> (r: u64)
        ensures
            r == self.threshold(),
            self.needs_two_thirds(),
    {
        proof {
            use_type_invariant(self);
        }
        self.threshold_66
    }

    /// Position of the local validator.
    pub fn get_self_idx(&self) -> (r: ValidatorIndex)
        ensures
            r == self.local(),
    {
        self.self_idx
    }

    /// Shard of the session.
    pub fn get_shard(&self) -> (r: &ShardIdent)
        ensures
            *r == self.shard_ident(),
    {
        &self.shard
    }

    /// Slots in a leader window.
    pub fn get_slots_per_leader_window(&self) -> (r: u32)
        ensures
            r == self.window_len(),
            r > 0,
    {
        proof {
            use_type_invariant(self);
        }
        self.slots_per_leader_window
    }

    /// Seqno of the first block of the session.
    pub fn get_initial_block_seqno(&self) -> (r: u32)
        ensures
            r == self.first_seqno(),
    {
        self.initial_block_seqno
    }

    /// The window of `slot`.
    pub fn get_window_idx(&self, slot: SlotIndex) -> (r: WindowIndex)
        ensures
            r == self.window(slot),
    {
        proof {
            use_type_invariant(self);
        }
        slot.window_index(self.slots_per_leader_window)
    }

    /// The validator that leads `slot`.
    pub fn get_leader(&self, slot: SlotIndex) -> (r: ValidatorIndex)
        ensures
            r == self.leader(slot),
    {
        proof {
            use_type_invariant(self);
        }
        let window: WindowIndex = slot.window_index(self.slots_per_leader_window);
        self.rotation[window.0 as usize % self.rotation.len()]
    }
}

proof fn lemma_sum_where_grows(w: Seq<u64>, p: spec_fn(int) -> bool, m: nat, n: nat)
    requires
        m <= n,
    ensures
        sum_where(w, p, m) <= sum_where(w, p, n),
    decreases n,
{
    if m < n {
        lemma_sum_where_grows(w, p, m, (n - 1) as nat);
    }
}

/// Leaders take turns: a validator leads all slots of a window, and the window after
/// it is led by the one that comes next in the rotation, after the last one the
/// first.
pub proof fn leaders_take_turns(desc: SessionDescription, slot: SlotIndex, other: SlotIndex)
    requires
        desc.window_len() > 0,
        desc.rotation().len() > 0,
    ensures
        ({
            let n = desc.rotation().len() as int;
            let len = desc.window_len() as int;
            let turn = (slot.0 as int / len) % n;
            &&& 0 <= turn < n
            &&& desc.leader(slot) == desc.rotation()[turn]
            &&& other.0 as int / len == slot.0 as int / len ==> desc.leader(other) == desc.leader(
                slot,
            )
            &&& other.0 as int / len == slot.0 as int / len + 1 ==> desc.leader(other)
                == desc.rotation()[if turn == n - 1 {
                0
            } else {
                turn + 1
            }]
        }),
{
    let n = desc.rotation().len() as int;
    let len = desc.window_len() as int;
    let a = slot.0 as int / len;
    let b = other.0 as int / len;
    assert(0 <= a <= slot.0 && 0 <= b <= other.0) by (nonlinear_arith)
        requires
            len > 0,
            slot.0 >= 0,
            other.0 >= 0,
            a == slot.0 as int / len,
            b == other.0 as int / len,
    ;
    assert(0 <= a % n < n) by (nonlinear_arith)
        requires
            n > 0,
    ;
    if b == a + 1 {
        assert((a + 1) % n == (if a % n == n - 1 {
            0
        } else {
            a % n + 1
        })) by (nonlinear_arith)
            requires
                n > 0,
                a >= 0,
        ;
    }
}

} // verus!
