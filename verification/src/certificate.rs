//! Certificates: vote signatures of validators that weigh enough together.

use vstd::prelude::*;

use crate::block::{SlotIndex, ValidatorIndex};
use crate::chain::UInt256;
use crate::session_description::{
    distinct_voters, lemma_sum_where_mono, lemma_sum_where_union, lemma_weight_of_distinct,
    lemma_weight_of_prefix, listed, sum_where, total_of, weight_of, SessionDescription,
};
use crate::votes::{FinalizeVote, NotarizeVote, SkipVote, ToTlUnsignedVote, UnsignedVote, Vote};

verus! {

/// A validator's signature of a vote.
#[derive(Debug)]
pub struct VoteSignature {
    pub validator_idx: ValidatorIndex,
    pub signature: Vec<u8>,
}

/// The contents of a [`VoteSignature`].
pub struct VoteSignatureView {
    pub validator_idx: ValidatorIndex,
    pub signature: Seq<u8>,
}

impl View for VoteSignature {
    type V = VoteSignatureView;

    open spec fn view(&self) -> VoteSignatureView {
        VoteSignatureView { validator_idx: self.validator_idx, signature: self.signature@ }
    }
}

/// A validator's signature as it travels, where positions are signed.
#[derive(Debug)]
pub struct WireSignature {
    pub who: i32,
    pub signature: Vec<u8>,
}

/// How the signature `sig` travels.
pub open spec fn travels_as(sig: VoteSignatureView, wire: WireSignature) -> bool {
    wire.who == sig.validator_idx.0 as i32 && wire.signature@ == sig.signature
}

/// The signature that travels as `wire`.
pub open spec fn arrived(wire: WireSignature) -> VoteSignatureView {
    VoteSignatureView {
        validator_idx: ValidatorIndex(wire.who as u32),
        signature: wire.signature@,
    }
}

impl VoteSignature {
    /// The signature of the validator at `validator_idx`.
    pub fn new(validator_idx: ValidatorIndex, signature: Vec<u8>) -> (r: Self)
        ensures
            r@ == (VoteSignatureView { validator_idx, signature: signature@ }),
    {
        VoteSignature { validator_idx, signature }
    }

    /// The signature that travels as `wire`.
    pub fn from_tl(wire: &WireSignature) -> (r: Self)
        ensures
            r@ == arrived(*wire),
    {
        VoteSignature {
            validator_idx: ValidatorIndex(wire.who as u32),
            signature: wire.signature.clone(),
        }
    }

    /// How the signature travels.
    pub fn to_tl(&self) -> (r: WireSignature)
        ensures
            travels_as(self@, r),
    {
        WireSignature { who: self.validator_idx.0 as i32, signature: self.signature.clone() }
    }
}

/// Why a certificate is refused.
#[derive(Clone, Copy, Debug, PartialEq, Eq, Structural)]
pub enum CertificateError {
    /// The certified vote cannot be read.
    UnreadableVote,
    /// The certified vote is of another kind.
    WrongVoteType,
    /// The certified vote is for another slot.
    SlotMismatch { expected: SlotIndex, got: SlotIndex },
    /// The certified vote is for another block.
    BlockHashMismatch,
    /// A block is expected and the certified vote names none.
    MissingBlockHash,
    /// A vote of this kind needs a block and none is expected.
    VoteNeedsBlockHash,
    /// A signer is not one of the validators.
    InvalidValidatorIndex(ValidatorIndex),
    /// A signer occurs twice.
    DuplicateValidator(ValidatorIndex),
    /// A signature does not verify.
    InvalidSignature(ValidatorIndex),
    /// The signers do not weigh enough.
    NotEnoughWeight { weight: u64, threshold: u64 },
}

/// The signers of a set of signatures, in order.
pub open spec fn signers(wire: Seq<WireSignature>) -> Seq<ValidatorIndex> {
    wire.map_values(|w: WireSignature| ValidatorIndex(w.who as u32))
}

/// What is wrong with signature `i`, where `valid` says which ones verify.
pub open spec fn fault_at(
    wire: Seq<WireSignature>,
    valid: Seq<bool>,
    n: nat,
    i: int,
) -> Option<CertificateError> {
    let who = signers(wire)[i];
    if who.0 >= n {
        Some(CertificateError::InvalidValidatorIndex(who))
    } else if exists|j: int| 0 <= j < i && #[trigger] signers(wire)[j] == who {
        Some(CertificateError::DuplicateValidator(who))
    } else if !valid[i] {
        Some(CertificateError::InvalidSignature(who))
    } else {
        None
    }
}

/// Whether the first `k` signatures are in order.
pub open spec fn sound_prefix(
    wire: Seq<WireSignature>,
    valid: Seq<bool>,
    n: nat,
    k: int,
) -> bool {
    forall|i: int| 0 <= i < k ==> #[trigger] fault_at(wire, valid, n, i) is None
}

/// Whether `e` is what is wrong with the first faulty signature.
pub open spec fn first_fault(
    wire: Seq<WireSignature>,
    valid: Seq<bool>,
    n: nat,
    e: CertificateError,
) -> bool {
    exists|i: int|
        0 <= i < wire.len() && #[trigger] fault_at(wire, valid, n, i) == Some(e) && sound_prefix(
            wire,
            valid,
            n,
            i,
        )
}

/// Whether all signatures are in order.
pub open spec fn all_sound(wire: Seq<WireSignature>, valid: Seq<bool>, n: nat) -> bool {
    sound_prefix(wire, valid, n, wire.len() as int)
}

/// Whether the signatures `sigs` are those that travel as `wire`, in order.
pub open spec fn same_signatures(sigs: Seq<VoteSignature>, wire: Seq<WireSignature>) -> bool {
    &&& sigs.len() == wire.len()
    &&& forall|i: int| 0 <= i < sigs.len() ==> (#[trigger] sigs[i])@ == arrived(wire[i])
}

/// Signatures in order come from different validators.
pub proof fn lemma_sound_is_distinct(wire: Seq<WireSignature>, valid: Seq<bool>, n: nat, k: int)
    requires
        sound_prefix(wire, valid, n, k),
        0 <= k <= wire.len(),
    ensures
        distinct_voters(signers(wire).take(k), n),
{
    let s = signers(wire).take(k);
    assert forall|i: int| 0 <= i < s.len() implies (#[trigger] s[i]).0 < n by {
        assert(fault_at(wire, valid, n, i) is None);
    }
    assert forall|i: int, j: int| 0 <= i < j < s.len() implies s[i] != s[j] by {
        assert(fault_at(wire, valid, n, j) is None);
        assert(signers(wire)[i] == s[i]);
    }
}

/// Checks that the signatures come from different validators and verify.
///
/// `valid[i]` says whether signature `i` verifies. The signatures come back
/// with the weight of their signers.
pub fn check_signatures(
    wire: &Vec<WireSignature>,
    valid: &Vec<bool>,
    desc: &SessionDescription,
) -> (r: Result<(Vec<VoteSignature>, u64), CertificateError>)
    requires
        wire@.len() == valid@.len(),
    ensures
        match r {
            Ok((sigs, weight)) => {
                &&& all_sound(wire@, valid@, desc.weights().len())
                &&& same_signatures(sigs@, wire@)
                &&& weight == weight_of(desc.weights(), signers(wire@))
            },
            Err(e) => first_fault(wire@, valid@, desc.weights().len(), e),
        },
{
    let n: usize = desc.get_total_nodes();
    let ghost w = desc.weights();
    let mut voted: Vec<bool> = Vec::new();
    let mut i: usize = 0;
    while i < n
        invariant
            i <= n,
            voted@.len() == i,
            forall|j: int| 0 <= j < i ==> !(#[trigger] voted@[j]),
        decreases n - i,
    {
        voted.push(false);
        i += 1;
    }
    let mut sigs: Vec<VoteSignature> = Vec::new();
    let mut weight: u64 = 0;
    let mut k: usize = 0;
    while k < wire.len()
        invariant
            k <= wire@.len(),
            wire@.len() == valid@.len(),
            n == w.len(),
            w == desc.weights(),
            total_of(w) <= u64::MAX,
            voted@.len() == n,
            sound_prefix(wire@, valid@, n as nat, k as int),
            sigs@.len() == k,
            forall|i: int| 0 <= i < k ==> (#[trigger] sigs@[i])@ == arrived(wire@[i]),
            weight == weight_of(w, signers(wire@).take(k as int)),
            forall|v: int|
                0 <= v < n ==> (#[trigger] voted@[v] <==> exists|j: int|
                    0 <= j < k && (#[trigger] signers(wire@)[j]).0 == v),
        decreases wire@.len() - k,
    {
        let ghost names = signers(wire@);
        let sig: VoteSignature = VoteSignature::from_tl(&wire[k]);
        let who: ValidatorIndex = sig.validator_idx;
        assert(names[k as int] == who);
        if who.is_out_of_bounds(n) {
            assert(fault_at(wire@, valid@, n as nat, k as int) == Some(
                CertificateError::InvalidValidatorIndex(who),
            ));
            return Err(CertificateError::InvalidValidatorIndex(who));
        }
        if voted[who.0 as usize] {
            proof {
                let j = choose|j: int| 0 <= j < k && (#[trigger] names[j]).0 == who.0;
                assert(names[j] == who);
                assert(fault_at(wire@, valid@, n as nat, k as int) == Some(
                    CertificateError::DuplicateValidator(who),
                ));
            }
            return Err(CertificateError::DuplicateValidator(who));
        }
        assert(!(exists|j: int| 0 <= j < k && #[trigger] names[j] == who)) by {
            assert(!voted@[who.0 as int]);
        }
        if !valid[k] {
            assert(fault_at(wire@, valid@, n as nat, k as int) == Some(
                CertificateError::InvalidSignature(who),
            ));
            return Err(CertificateError::InvalidSignature(who));
        }
        assert(fault_at(wire@, valid@, n as nat, k as int) is None);
        assert(sound_prefix(wire@, valid@, n as nat, k as int + 1));
        proof {
            lemma_sound_is_distinct(wire@, valid@, n as nat, k as int + 1);
            lemma_weight_of_distinct(w, names.take(k as int + 1));
            assert(names.take(k as int + 1).drop_last() =~= names.take(k as int));
        }
        let ghost voted_before = voted@;
        voted.set(who.0 as usize, true);
        weight = weight + desc.get_node_weight(who);
        sigs.push(sig);
        assert forall|v: int| 0 <= v < n implies (#[trigger] voted@[v] <==> exists|j: int|
            0 <= j < k + 1 && (#[trigger] names[j]).0 == v) by {
            if v == who.0 {
                assert(names[k as int].0 == v);
            } else {
                assert(voted@[v] == voted_before[v]);
                if voted@[v] {
                    let j = choose|j: int| 0 <= j < k && (#[trigger] names[j]).0 == v;
                    assert(names[j].0 == v);
                }
            }
        }
        k += 1;
    }
    assert(signers(wire@).take(k as int) =~= signers(wire@));
    Ok((sigs, weight))
}

/// A vote with signatures of validators for it.
#[derive(Debug)]
pub struct Certificate<T> {
    pub vote: T,
    pub signatures: Vec<VoteSignature>,
}

/// Certificate of notarization.
pub type NotarCert = Certificate<NotarizeVote>;

/// Certificate of finalization.
pub type FinalCert = Certificate<FinalizeVote>;

/// Certificate that a slot is skipped.
pub type SkipCert = Certificate<SkipVote>;

/// The validators that signed.
pub open spec fn voters(sigs: Seq<VoteSignature>) -> Seq<ValidatorIndex> {
    sigs.map_values(|s: VoteSignature| s.validator_idx)
}

impl<T> Certificate<T> {
    /// The validators that signed.
    pub open spec fn voters(self) -> Seq<ValidatorIndex> {
        voters(self.signatures@)
    }

    /// Whether different validators of the session signed, and weigh enough.
    pub open spec fn proves(self, desc: SessionDescription) -> bool {
        &&& distinct_voters(self.voters(), desc.weights().len())
        &&& weight_of(desc.weights(), self.voters()) >= desc.threshold()
    }

    /// The certificate with the given vote and signatures, which are not checked.
    pub fn new(vote: T, signatures: Vec<VoteSignature>) -> (r: Self)
        ensures
            r.vote == vote,
            r.signatures == signatures,
    {
        Certificate { vote, signatures }
    }

    /// Sum of the weights of the signers.
    pub fn total_weight(&self, desc: &SessionDescription) -> (r: u64)
        requires
            forall|k: int|
                0 <= k < self.signatures@.len() ==> (#[trigger] self.signatures@[k]).validator_idx.0
                    < desc.weights().len(),
            weight_of(desc.weights(), self.voters()) <= u64::MAX,
        ensures
            r == weight_of(desc.weights(), self.voters()),
    {
        let mut total: u64 = 0;
        let mut k: usize = 0;
        let ghost names = self.voters();
        let ghost w = desc.weights();
        while k < self.signatures.len()
            invariant
                k <= self.signatures@.len(),
                names == self.voters(),
                w == desc.weights(),
                weight_of(w, names) <= u64::MAX,
                total == weight_of(w, names.take(k as int)),
                forall|k: int|
                    0 <= k < self.signatures@.len() ==> (#[trigger] self.signatures@[k]).validator_idx.0
                        < w.len(),
            decreases self.signatures@.len() - k,
        {
            proof {
                lemma_weight_of_prefix(w, names, k as int + 1);
                assert(names.take(k as int + 1).drop_last() =~= names.take(k as int));
                assert(names.take(k as int + 1).last() == self.signatures@[k as int].validator_idx);
            }
            total = total + desc.get_node_weight(self.signatures[k].validator_idx);
            k += 1;
        }
        assert(names.take(k as int) =~= names);
        total
    }

    /// Whether the signers weigh enough.
    pub fn has_sufficient_weight(&self, desc: &SessionDescription) -> (r: bool)
        requires
            forall|k: int|
                0 <= k < self.signatures@.len() ==> (#[trigger] self.signatures@[k]).validator_idx.0
                    < desc.weights().len(),
            weight_of(desc.weights(), self.voters()) <= u64::MAX,
        ensures
            r == (weight_of(desc.weights(), self.voters()) >= desc.threshold()),
    {
        self.total_weight(desc) >= desc.get_threshold_66()
    }

    /// Whether the signers weigh less than a certificate needs.
    pub fn is_underweight(&self, desc: &SessionDescription) -> (r: bool)
        requires
            forall|k: int|
                0 <= k < self.signatures@.len() ==> (#[trigger] self.signatures@[k]).validator_idx.0
                    < desc.weights().len(),
        ensures
            r == (weight_of(desc.weights(), self.voters()) < desc.threshold()),
    {
        let mut total: u64 = 0;
        let mut k: usize = 0;
        let ghost names = self.voters();
        let ghost w = desc.weights();
        while k < self.signatures.len()
            invariant
                k <= self.signatures@.len(),
                names == self.voters(),
                w == desc.weights(),
                total == weight_of(w, names.take(k as int)),
                forall|k: int|
                    0 <= k < self.signatures@.len() ==> (#[trigger] self.signatures@[k]).validator_idx.0
                        < w.len(),
            decreases self.signatures@.len() - k,
        {
            proof {
                lemma_weight_of_prefix(w, names, k as int + 1);
                assert(names.take(k as int + 1).drop_last() =~= names.take(k as int));
                assert(names[k as int] == self.signatures@[k as int].validator_idx);
            }
            match total.checked_add(desc.get_node_weight(self.signatures[k].validator_idx)) {
                Some(sum) => {
                    total = sum;
                },
                None => {
                    return false;
                },
            }
            k += 1;
        }
        assert(names.take(k as int) =~= names);
        total < desc.get_threshold_66()
    }

    /// How the signatures travel.
    pub fn to_tl_vote_signature_set(&self) -> (r: Vec<WireSignature>)
        ensures
            r@.len() == self.signatures@.len(),
            forall|i: int|
                0 <= i < r@.len() ==> travels_as(self.signatures@[i]@, #[trigger] r@[i]),
    {
        let mut out: Vec<WireSignature> = Vec::new();
        let mut k: usize = 0;
        while k < self.signatures.len()
            invariant
                k <= self.signatures@.len(),
                out@.len() == k,
                forall|i: int|
                    0 <= i < k ==> travels_as(self.signatures@[i]@, #[trigger] out@[i]),
            decreases self.signatures@.len() - k,
        {
            out.push(self.signatures[k].to_tl());
            k += 1;
        }
        out
    }
}

proof fn lemma_voters(sigs: Seq<VoteSignature>, wire: Seq<WireSignature>)
    requires
        same_signatures(sigs, wire),
    ensures
        voters(sigs) == signers(wire),
{
    assert forall|i: int| 0 <= i < sigs.len() implies #[trigger] voters(sigs)[i] == signers(
        wire,
    )[i] by {
        assert(sigs[i]@ == arrived(wire[i]));
    }
    assert(voters(sigs) =~= signers(wire));
}

/// What certifying `wire` gives: the first fault, a lack of weight, or the
/// certificate.
pub open spec fn certified<T>(
    r: Result<Certificate<T>, CertificateError>,
    vote: T,
    wire: Seq<WireSignature>,
    valid: Seq<bool>,
    desc: SessionDescription,
) -> bool {
    let n = desc.weights().len();
    let weight = weight_of(desc.weights(), signers(wire));
    match r {
        Ok(cert) => {
            &&& all_sound(wire, valid, n)
            &&& weight >= desc.threshold()
            &&& cert.vote == vote
            &&& same_signatures(cert.signatures@, wire)
            &&& cert.proves(desc)
        },
        Err(e) => first_fault(wire, valid, n, e) || (all_sound(wire, valid, n) && weight
            < desc.threshold() && e == (CertificateError::NotEnoughWeight {
            weight: weight as u64,
            threshold: desc.threshold(),
        })),
    }
}

impl<T: ToTlUnsignedVote> Certificate<T> {
    /// How the certificate travels.
    pub fn to_tl(&self) -> (r: (UnsignedVote, Vec<WireSignature>))
        ensures
            r.0 == crate::votes::unsigned(self.vote.vote_spec()),
            r.1@.len() == self.signatures@.len(),
            forall|i: int|
                0 <= i < r.1@.len() ==> travels_as(self.signatures@[i]@, #[trigger] r.1@[i]),
    {
        (self.vote.to_tl_unsigned(), self.to_tl_vote_signature_set())
    }
}

impl<T> Certificate<T> {
    /// The certificate of `vote` by the given signatures; `valid[i]` says
    /// whether signature `i` verifies for the vote.
    pub fn from_tl_signatures(
        wire: &Vec<WireSignature>,
        valid: &Vec<bool>,
        vote: T,
        desc: &SessionDescription,
    ) -> (r: Result<Self, CertificateError>)
        requires
            wire@.len() == valid@.len(),
        ensures
            certified(r, vote, wire@, valid@, *desc),
    {
        match check_signatures(wire, valid, desc) {
            Err(e) => Err(e),
            Ok((signatures, weight)) => {
                proof {
                    lemma_voters(signatures@, wire@);
                    lemma_sound_is_distinct(
                        wire@,
                        valid@,
                        desc.weights().len(),
                        wire@.len() as int,
                    );
                    assert(signers(wire@).take(wire@.len() as int) =~= signers(wire@));
                }
                let threshold: u64 = desc.get_threshold_66();
                if weight < threshold {
                    return Err(CertificateError::NotEnoughWeight { weight, threshold });
                }
                Ok(Certificate { vote, signatures })
            },
        }
    }
}

impl Certificate<Vote> {
    /// The certificate that arrived with the vote `vote`, or `None` where the
    /// vote could not be read.
    pub fn from_tl(
        vote: Option<Vote>,
        wire: &Vec<WireSignature>,
        valid: &Vec<bool>,
        desc: &SessionDescription,
    ) -> (r: Result<Self, CertificateError>)
        requires
            wire@.len() == valid@.len(),
        ensures
            match vote {
                None => r == Err::<Self, _>(CertificateError::UnreadableVote),
                Some(v) => certified(r, v, wire@, valid@, *desc),
            },
    {
        match vote {
            None => Err(CertificateError::UnreadableVote),
            Some(v) => Self::from_tl_signatures(wire, valid, v, desc),
        }
    }
}

impl NotarCert {
    /// The stored certificate of the notarization of a block; its signatures
    /// were checked before they were stored.
    pub fn from_tl_bytes_for_candidate(
        wire: &Vec<WireSignature>,
        slot: SlotIndex,
        block_hash: UInt256,
    ) -> (r: NotarCert)
        ensures
            r.vote == (NotarizeVote { slot, block_hash }),
            same_signatures(r.signatures@, wire@),
    {
        let mut signatures: Vec<VoteSignature> = Vec::new();
        let mut k: usize = 0;
        while k < wire.len()
            invariant
                k <= wire@.len(),
                signatures@.len() == k,
                forall|i: int| 0 <= i < k ==> (#[trigger] signatures@[i])@ == arrived(wire@[i]),
            decreases wire@.len() - k,
        {
            signatures.push(VoteSignature::from_tl(&wire[k]));
            k += 1;
        }
        Certificate::new(NotarizeVote { slot, block_hash }, signatures)
    }
}

/// A kind of vote that certificates are checked for.
pub trait VerifiableVote: ToTlUnsignedVote {
    /// Slot and block of a travelling vote of this kind.
    spec fn extracted(tl: UnsignedVote) -> Option<(SlotIndex, Option<UInt256>)>;

    /// The vote of this kind for a slot and, where it needs one, a block.
    spec fn created(slot: SlotIndex, block_hash: Option<UInt256>) -> Option<Self>;

    /// Name of the kind.
    spec fn name_spec() -> Seq<char>;

    /// Slot and block of a travelling vote of this kind.
    fn extract_from_tl(tl: &UnsignedVote) -> (r: Option<(SlotIndex, Option<UInt256>)>)
        ensures
            r == Self::extracted(*tl),
    ;

    /// The vote of this kind for a slot and, where it needs one, a block.
    fn create(slot: SlotIndex, block_hash: Option<UInt256>) -> (r: Result<Self, CertificateError>)
        ensures
            r == (match Self::created(slot, block_hash) {
                Some(v) => Ok::<Self, CertificateError>(v),
                None => Err(CertificateError::VoteNeedsBlockHash),
            }),
    ;

    /// Name of the kind.
    fn vote_type_name() -> (r: &'static str)
        ensures
            r@ == Self::name_spec(),
    ;
}

impl VerifiableVote for NotarizeVote {
    open spec fn extracted(tl: UnsignedVote) -> Option<(SlotIndex, Option<UInt256>)> {
        match tl {
            UnsignedVote::Notarize(id) => Some((SlotIndex(id.slot as u32), Some(id.hash))),
            _ => None,
        }
    }

    open spec fn created(slot: SlotIndex, block_hash: Option<UInt256>) -> Option<Self> {
        match block_hash {
            Some(block_hash) => Some(NotarizeVote { slot, block_hash }),
            None => None,
        }
    }

    open spec fn name_spec() -> Seq<char> {
        "notarize"@
    }

    fn extract_from_tl(tl: &UnsignedVote) -> (r: Option<(SlotIndex, Option<UInt256>)>) {
        match tl {
            UnsignedVote::Notarize(id) => Some((SlotIndex(id.slot as u32), Some(id.hash))),
            _ => None,
        }
    }

    fn create(slot: SlotIndex, block_hash: Option<UInt256>) -> (r: Result<Self, CertificateError>) {
        match block_hash {
            Some(block_hash) => Ok(NotarizeVote { slot, block_hash }),
            None => Err(CertificateError::VoteNeedsBlockHash),
        }
    }

    fn vote_type_name() -> (r: &'static str) {
        "notarize"
    }
}

impl VerifiableVote for FinalizeVote {
    open spec fn extracted(tl: UnsignedVote) -> Option<(SlotIndex, Option<UInt256>)> {
        match tl {
            UnsignedVote::Finalize(id) => Some((SlotIndex(id.slot as u32), Some(id.hash))),
            _ => None,
        }
    }

    open spec fn created(slot: SlotIndex, block_hash: Option<UInt256>) -> Option<Self> {
        match block_hash {
            Some(block_hash) => Some(FinalizeVote { slot, block_hash }),
            None => None,
        }
    }

    open spec fn name_spec() -> Seq<char> {
        "finalize"@
    }

    fn extract_from_tl(tl: &UnsignedVote) -> (r: Option<(SlotIndex, Option<UInt256>)>) {
        match tl {
            UnsignedVote::Finalize(id) => Some((SlotIndex(id.slot as u32), Some(id.hash))),
            _ => None,
        }
    }

    fn create(slot: SlotIndex, block_hash: Option<UInt256>) -> (r: Result<Self, CertificateError>) {
        match block_hash {
            Some(block_hash) => Ok(FinalizeVote { slot, block_hash }),
            None => Err(CertificateError::VoteNeedsBlockHash),
        }
    }

    fn vote_type_name() -> (r: &'static str) {
        "finalize"
    }
}

impl VerifiableVote for SkipVote {
    open spec fn extracted(tl: UnsignedVote) -> Option<(SlotIndex, Option<UInt256>)> {
        match tl {
            UnsignedVote::Skip(slot) => Some((SlotIndex(slot as u32), None)),
            _ => None,
        }
    }

    open spec fn created(slot: SlotIndex, block_hash: Option<UInt256>) -> Option<Self> {
        Some(SkipVote { slot })
    }

    open spec fn name_spec() -> Seq<char> {
        "skip"@
    }

    fn extract_from_tl(tl: &UnsignedVote) -> (r: Option<(SlotIndex, Option<UInt256>)>) {
        match tl {
            UnsignedVote::Skip(slot) => Some((SlotIndex(*slot as u32), None)),
            _ => None,
        }
    }

    fn create(slot: SlotIndex, block_hash: Option<UInt256>) -> (r: Result<Self, CertificateError>) {
        Ok(SkipVote { slot })
    }

    fn vote_type_name() -> (r: &'static str) {
        "skip"
    }
}

/// What is wrong with the certified vote, apart from its signatures.
pub open spec fn vote_fault<T: VerifiableVote>(
    tl: UnsignedVote,
    expected_slot: SlotIndex,
    expected_hash: Option<UInt256>,
) -> Option<CertificateError> {
    match T::extracted(tl) {
        None => Some(CertificateError::WrongVoteType),
        Some((slot, hash)) => if slot != expected_slot {
            Some(CertificateError::SlotMismatch { expected: expected_slot, got: slot })
        } else {
            match (expected_hash, hash) {
                (Some(e), Some(a)) => if e != a {
                    Some(CertificateError::BlockHashMismatch)
                } else {
                    None
                },
                (Some(_), None) => Some(CertificateError::MissingBlockHash),
                _ => None,
            }
        },
    }
}

impl<T: VerifiableVote> Certificate<T> {
    /// The certificate that arrived, if it certifies the expected vote.
    pub fn verify_from_tl(
        tl: &UnsignedVote,
        wire: &Vec<WireSignature>,
        valid: &Vec<bool>,
        expected_slot: SlotIndex,
        expected_block_hash: Option<UInt256>,
        desc: &SessionDescription,
    ) -> (r: Result<Self, CertificateError>)
        requires
            wire@.len() == valid@.len(),
        ensures
            match vote_fault::<T>(*tl, expected_slot, expected_block_hash) {
                Some(e) => r == Err::<Self, _>(e),
                None => match T::created(expected_slot, expected_block_hash) {
                    Some(vote) => certified(r, vote, wire@, valid@, *desc),
                    None => match r {
                        Ok(_) => false,
                        Err(e) => first_fault(wire@, valid@, desc.weights().len(), e) || (all_sound(
                            wire@,
                            valid@,
                            desc.weights().len(),
                        ) && e == CertificateError::VoteNeedsBlockHash),
                    },
                },
            },
    {
        let (cert_slot, cert_hash): (SlotIndex, Option<UInt256>) = match T::extract_from_tl(tl) {
            Some(x) => x,
            None => {
                return Err(CertificateError::WrongVoteType);
            },
        };
        if cert_slot != expected_slot {
            return Err(
                CertificateError::SlotMismatch { expected: expected_slot, got: cert_slot },
            );
        }
        match (expected_block_hash, cert_hash) {
            (Some(expected), Some(actual)) => {
                if expected != actual {
                    return Err(CertificateError::BlockHashMismatch);
                }
            },
            (Some(_), None) => {
                return Err(CertificateError::MissingBlockHash);
            },
            _ => {},
        }
        let (signatures, _): (Vec<VoteSignature>, u64) = match check_signatures(wire, valid, desc) {
            Ok(x) => x,
            Err(e) => {
                return Err(e);
            },
        };
        let vote: T = match T::create(expected_slot, expected_block_hash) {
            Ok(v) => v,
            Err(e) => {
                return Err(e);
            },
        };
        let cert: Certificate<T> = Certificate::new(vote, signatures);
        proof {
            lemma_voters(cert.signatures@, wire@);
            lemma_sound_is_distinct(wire@, valid@, desc.weights().len(), wire@.len() as int);
            assert(signers(wire@).take(wire@.len() as int) =~= signers(wire@));
            assert forall|k: int| 0 <= k < cert.signatures@.len() implies (
            #[trigger] cert.signatures@[k]).validator_idx.0 < desc.weights().len() by {
                assert(cert.voters()[k].0 < desc.weights().len());
            }
        }
        // The total weight fits 64 bits, so that of the signers does.
        let _ = desc.get_total_nodes();
        proof {
            lemma_weight_of_distinct(desc.weights(), cert.voters());
        }
        if !cert.has_sufficient_weight(desc) {
            return Err(
                CertificateError::NotEnoughWeight {
                    weight: cert.total_weight(desc),
                    threshold: desc.get_threshold_66(),
                },
            );
        }
        Ok(cert)
    }
}

/// Signatures arrive as they were sent.
pub proof fn signatures_survive_travel(sig: VoteSignatureView, wire: WireSignature)
    requires
        travels_as(sig, wire),
    ensures
        arrived(wire) == sig,
{
    let x = sig.validator_idx.0;
    assert((x as i32) as u32 == x) by (bit_vector);
}

/// Two certificates that weigh enough are signed by common validators, which
/// weigh at least twice the threshold less the total weight.
pub proof fn certificates_overlap<S, T>(
    a: Certificate<S>,
    b: Certificate<T>,
    desc: SessionDescription,
)
    requires
        a.proves(desc),
        b.proves(desc),
    ensures
        ({
            let w = desc.weights();
            let common = |i: int| listed(a.voters())(i) && listed(b.voters())(i);
            let shared = sum_where(w, common, w.len());
            shared + total_of(w) >= 2 * desc.threshold()
        }),
{
    let w = desc.weights();
    let p = listed(a.voters());
    let q = listed(b.voters());
    lemma_weight_of_distinct(w, a.voters());
    lemma_weight_of_distinct(w, b.voters());
    lemma_sum_where_union(w, p, q, w.len());
    lemma_sum_where_mono(w, |i: int| p(i) || q(i), |i: int| true, w.len());
    let common = |i: int| listed(a.voters())(i) && listed(b.voters())(i);
    lemma_sum_where_mono(w, |i: int| p(i) && q(i), common, w.len());
}

/// A certificate that weighs enough is signed by two thirds of the total
/// weight, and two of them are both signed by validators that weigh a third.
pub proof fn certificates_share_a_third<S, T>(
    a: Certificate<S>,
    b: Certificate<T>,
    desc: SessionDescription,
)
    requires
        a.proves(desc),
        b.proves(desc),
        desc.needs_two_thirds(),
    ensures
        ({
            let w = desc.weights();
            let common = |i: int| listed(a.voters())(i) && listed(b.voters())(i);
            &&& 3 * weight_of(w, a.voters()) >= 2 * total_of(w)
            &&& 3 * sum_where(w, common, w.len()) >= total_of(w)
        }),
{
    certificates_overlap(a, b, desc);
}

/// A vote is what is expected exactly if it is of the expected kind and for the
/// expected slot, and, where a block is expected, for that block; then the
/// certificate is one of that kind for that slot and block.
pub proof fn expected_votes_are_recognized(
    tl: UnsignedVote,
    slot: SlotIndex,
    hash: UInt256,
)
    ensures
        vote_fault::<NotarizeVote>(tl, slot, Some(hash)) is None <==> (
        tl matches UnsignedVote::Notarize(id) && id.slot as u32 == slot.0 && id.hash == hash),
        vote_fault::<FinalizeVote>(tl, slot, Some(hash)) is None <==> (
        tl matches UnsignedVote::Finalize(id) && id.slot as u32 == slot.0 && id.hash == hash),
        vote_fault::<SkipVote>(tl, slot, None) is None <==> (tl matches UnsignedVote::Skip(s)
            && s as u32 == slot.0),
        !(tl is Notarize) ==> vote_fault::<NotarizeVote>(tl, slot, Some(hash)) == Some(
            CertificateError::WrongVoteType,
        ),
        !(tl is Finalize) ==> vote_fault::<FinalizeVote>(tl, slot, Some(hash)) == Some(
            CertificateError::WrongVoteType,
        ),
        !(tl is Skip) ==> vote_fault::<SkipVote>(tl, slot, None) == Some(
            CertificateError::WrongVoteType,
        ),
        NotarizeVote::created(slot, Some(hash)) == Some(NotarizeVote { slot, block_hash: hash }),
        FinalizeVote::created(slot, Some(hash)) == Some(FinalizeVote { slot, block_hash: hash }),
        SkipVote::created(slot, None) == Some(SkipVote { slot }),
        NotarizeVote::created(slot, None) is None,
        FinalizeVote::created(slot, None) is None,
{
}

/// Of faulty signatures the first one is reported, with what is wrong with it: a signer
/// that is no validator, one that signed before, or a signature that does not verify.
pub proof fn faults_are_named(
    wire: Seq<WireSignature>,
    valid: Seq<bool>,
    n: nat,
    e: CertificateError,
)
    requires
        first_fault(wire, valid, n, e),
    ensures
        exists|i: int|
            {
                &&& 0 <= i < wire.len()
                &&& match e {
                    CertificateError::InvalidValidatorIndex(who) => who.0 == (
                    #[trigger] wire[i]).who as u32 && who.0 >= n,
                    CertificateError::DuplicateValidator(who) => who.0 == wire[i].who as u32
                        && exists|j: int| 0 <= j < i && (#[trigger] wire[j]).who as u32 == who.0,
                    CertificateError::InvalidSignature(who) => who.0 == wire[i].who as u32
                        && !valid[i],
                    _ => false,
                }
                &&& forall|k: int|
                    0 <= k < i ==> #[trigger] valid[k] && ((wire[k].who as u32) as int) < n
            },
{
    let i = choose|i: int|
        0 <= i < wire.len() && #[trigger] fault_at(wire, valid, n, i) == Some(e) && sound_prefix(
            wire,
            valid,
            n,
            i,
        );
    assert(signers(wire)[i].0 == wire[i].who as u32);
    if let CertificateError::DuplicateValidator(who) = e {
        let j = choose|j: int| 0 <= j < i && #[trigger] signers(wire)[j] == signers(wire)[i];
        assert(wire[j].who as u32 == who.0);
    }
    assert forall|k: int| 0 <= k < i implies #[trigger] valid[k] && ((wire[k].who as u32) as int)
        < n by {
        assert(fault_at(wire, valid, n, k) is None);
    }
}

} // verus!
