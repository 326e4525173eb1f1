//! Which writes are under way, and who waits for them.
//!
//! A write is known by a handle `R` that the caller polls; whoever waits for one
//! leaves a continuation `C`.

use vstd::prelude::*;

use crate::assoc::{lookup, AssocMap};
use crate::block::{CandidateHashInput, RawCandidateId, SlotIndex, ValidatorIndex, WindowIndex};
use crate::candidate_book::{ids_from, kept, slots_from};
use crate::chain::UInt256;
use crate::database::CandidateInfoRecord;
use crate::time::{TimePoint, TimeSpan};

verus! {

/// Number of a waiting continuation.
pub type PendingAsyncDbId = u64;

/// A continuation that waits for a write.
#[derive(Debug)]
pub struct PendingAsyncDbEntry<R, C> {
    pub id: PendingAsyncDbId,
    /// What the write is for.
    pub op_label: &'static str,
    pub result: R,
    pub registered_at: TimePoint,
    pub deadline: TimePoint,
    pub on_ready: C,
}

/// What became of a waiting continuation.
#[derive(Debug)]
pub enum PendingDrainStep<R, C, E> {
    /// There is none at this place.
    Done,
    /// Its write is done, and it waits no more.
    Ready { entry: PendingAsyncDbEntry<R, C>, result: Result<(), E> },
    /// Its time is over, and it waits no more.
    TimedOut { entry: PendingAsyncDbEntry<R, C> },
    /// It waits on.
    Pending,
}

/// What a vote waits for.
#[derive(Clone, Copy, Debug, PartialEq, Eq, Structural)]
pub enum DurabilityWaitKind {
    /// That what the candidate's hash was computed from is stored.
    CandidateInfo,
    /// That the notarization certificate is stored.
    NotarCert,
}

/// How a write failed.
#[derive(Debug)]
pub enum WriteError<E> {
    /// Somebody else took the result before.
    AlreadyTaken,
    /// The storage failed.
    Storage(E),
}

/// Why something is not known to be stored.
#[derive(Debug)]
pub enum DurabilityError<E> {
    /// The result was taken before, and the write is not known any more.
    TakenAfterFailure,
    /// The storage failed.
    Storage(E),
}

/// The contents of a [`DatabaseController`].
#[verifier::ext_equal]
#[verifier::reject_recursive_types(R)]
#[verifier::reject_recursive_types(C)]
pub struct DatabaseView<R, C> {
    /// First window that was not announced.
    pub window: WindowIndex,
    /// Writes of what candidates' hashes were computed from.
    pub infos: Map<RawCandidateId, R>,
    /// Writes of notarization certificates.
    pub notar: Map<RawCandidateId, R>,
    /// Writes of finalization certificates.
    pub fin: Map<RawCandidateId, R>,
    /// Writes of skip certificates.
    pub skip: Map<SlotIndex, R>,
    /// Waiting continuations.
    pub pending: Seq<PendingAsyncDbEntry<R, C>>,
    /// Number of the next continuation.
    pub next_id: u64,
}

/// Writes and continuations of a session.
#[verifier::reject_recursive_types(R)]
#[verifier::reject_recursive_types(C)]
pub struct DatabaseController<R, C> {
    first_nonannounced_window: WindowIndex,
    candidate_info_store_results: AssocMap<RawCandidateId, R>,
    notar_cert_store_results: AssocMap<RawCandidateId, R>,
    final_cert_store_results: AssocMap<RawCandidateId, R>,
    skip_cert_store_results: AssocMap<SlotIndex, R>,
    pending_async_db_results: Vec<PendingAsyncDbEntry<R, C>>,
    next_pending_async_db_id: PendingAsyncDbId,
}

impl<R, C> View for DatabaseController<R, C> {
    type V = DatabaseView<R, C>;

    closed spec fn view(&self) -> DatabaseView<R, C> {
        DatabaseView {
            window: self.first_nonannounced_window,
            infos: self.candidate_info_store_results@,
            notar: self.notar_cert_store_results@,
            fin: self.final_cert_store_results@,
            skip: self.skip_cert_store_results@,
            pending: self.pending_async_db_results@,
            next_id: self.next_pending_async_db_id,
        }
    }
}

impl<R, C> DatabaseView<R, C> {
    /// Whether the write that `kind` stands for is known.
    pub open spec fn knows(self, kind: DurabilityWaitKind, id: RawCandidateId) -> bool {
        match kind {
            DurabilityWaitKind::CandidateInfo => self.infos.dom().contains(id),
            DurabilityWaitKind::NotarCert => self.notar.dom().contains(id),
        }
    }

    /// Without the write that `kind` stands for.
    pub open spec fn forgets(self, kind: DurabilityWaitKind, id: RawCandidateId) -> Self {
        match kind {
            DurabilityWaitKind::CandidateInfo => DatabaseView {
                infos: self.infos.remove(id),
                ..self
            },
            DurabilityWaitKind::NotarCert => DatabaseView { notar: self.notar.remove(id), ..self },
        }
    }

    /// Without the writes of slots below `slot`.
    pub open spec fn from_slot(self, slot: SlotIndex) -> Self {
        DatabaseView {
            infos: kept(self.infos, ids_from(slot)),
            notar: kept(self.notar, ids_from(slot)),
            fin: kept(self.fin, ids_from(slot)),
            skip: kept(self.skip, slots_from(slot)),
            ..self
        }
    }

    /// With a continuation that waits for a write.
    pub open spec fn registered(
        self,
        op_label: &'static str,
        result: R,
        on_ready: C,
        now: TimePoint,
        timeout: TimeSpan,
    ) -> Self {
        DatabaseView {
            pending: self.pending.push(
                PendingAsyncDbEntry {
                    id: self.next_id,
                    op_label,
                    result,
                    registered_at: now,
                    deadline: now.plus(timeout)->Some_0,
                    on_ready,
                },
            ),
            next_id: if self.next_id == u64::MAX {
                0
            } else {
                (self.next_id + 1) as u64
            },
            ..self
        }
    }

    /// After the continuation at place `i` was looked at, and what became of it.
    pub open spec fn drained<E>(
        self,
        i: int,
        now: TimePoint,
        polled: Option<Result<(), E>>,
    ) -> (Self, PendingDrainStep<R, C, E>) {
        if i >= self.pending.len() {
            (self, PendingDrainStep::Done)
        } else {
            match polled {
                Some(result) => (
                    self.popped(i),
                    PendingDrainStep::Ready { entry: self.pending[i], result },
                ),
                None => if self.pending[i].deadline.nanos <= now.nanos {
                    (self.popped(i), PendingDrainStep::TimedOut { entry: self.pending[i] })
                } else {
                    (self, PendingDrainStep::Pending)
                },
            }
        }
    }

    /// After a vote waited for a write with this outcome, and whether it may go out.
    pub open spec fn judged<E>(
        self,
        outcome: Option<Result<(), WriteError<E>>>,
        kind: DurabilityWaitKind,
        id: RawCandidateId,
    ) -> (Self, Result<(), DurabilityError<E>>) {
        match outcome {
            None | Some(Ok(())) => (self, Ok(())),
            Some(Err(WriteError::AlreadyTaken)) => if self.knows(kind, id) {
                (self, Ok(()))
            } else {
                (self, Err(DurabilityError::TakenAfterFailure))
            },
            Some(Err(WriteError::Storage(e))) => (
                self.forgets(kind, id),
                Err(DurabilityError::Storage(e)),
            ),
        }
    }

    /// Without the continuation at place `i`, whose place the last one takes.
    pub open spec fn popped(self, i: int) -> Self {
        DatabaseView {
            pending: self.pending.update(i, self.pending.last()).drop_last(),
            ..self
        }
    }
}

impl<R, C> DatabaseController<R, C> {
    /// No writes are under way.
    pub fn new(first_nonannounced_window: WindowIndex) -> (r: Self)
        ensures
            r@ == (DatabaseView {
                window: first_nonannounced_window,
                infos: Map::<RawCandidateId, R>::empty(),
                notar: Map::<RawCandidateId, R>::empty(),
                fin: Map::<RawCandidateId, R>::empty(),
                skip: Map::<SlotIndex, R>::empty(),
                pending: Seq::<PendingAsyncDbEntry<R, C>>::empty(),
                next_id: 0,
            }),
    {
        DatabaseController {
            first_nonannounced_window,
            candidate_info_store_results: AssocMap::new(),
            notar_cert_store_results: AssocMap::new(),
            final_cert_store_results: AssocMap::new(),
            skip_cert_store_results: AssocMap::new(),
            pending_async_db_results: Vec::new(),
            next_pending_async_db_id: 0,
        }
    }

    /// First window that was not announced.
    pub fn first_nonannounced_window(&self) -> (r: WindowIndex)
        ensures
            r == self@.window,
    {
        self.first_nonannounced_window
    }

    /// Sets the first window that was not announced.
    pub fn set_first_nonannounced_window(&mut self, window: WindowIndex)
        ensures
            final(self)@ == (DatabaseView { window, ..old(self)@ }),
    {
        self.first_nonannounced_window = window;
    }

    /// The write of what a candidate's hash was computed from.
    pub fn candidate_info_store_result(&self, id: &RawCandidateId) -> (r: Option<&R>)
        ensures
            r is Some <==> self@.infos.dom().contains(*id),
            r matches Some(handle) ==> *handle == self@.infos[*id],
    {
        self.candidate_info_store_results.get(id)
    }

    /// Whether the write of what a candidate's hash was computed from is known.
    pub fn contains_candidate_info_store(&self, id: &RawCandidateId) -> (r: bool)
        ensures
            r == self@.infos.dom().contains(*id),
    {
        self.candidate_info_store_results.contains_key(id)
    }

    /// Sets the write of what a candidate's hash was computed from.
    pub fn insert_candidate_info_store(&mut self, id: RawCandidateId, result: R) -> (r: Option<R>)
        ensures
            final(self)@ == (DatabaseView {
                infos: old(self)@.infos.insert(id, result),
                ..old(self)@
            }),
            r == lookup(old(self)@.infos, id),
    {
        self.candidate_info_store_results.insert(id, result)
    }

    /// Forgets the write of what a candidate's hash was computed from.
    pub fn remove_candidate_info_store(&mut self, id: &RawCandidateId) -> (r: Option<R>)
        ensures
            final(self)@ == (DatabaseView { infos: old(self)@.infos.remove(*id), ..old(self)@ }),
            r == lookup(old(self)@.infos, *id),
    {
        self.candidate_info_store_results.remove(id)
    }

    /// The write of a notarization certificate.
    pub fn notar_cert_store_result(&self, id: &RawCandidateId) -> (r: Option<&R>)
        ensures
            r is Some <==> self@.notar.dom().contains(*id),
            r matches Some(handle) ==> *handle == self@.notar[*id],
    {
        self.notar_cert_store_results.get(id)
    }

    /// Whether the write of a notarization certificate is known.
    pub fn contains_notar_cert_store(&self, id: &RawCandidateId) -> (r: bool)
        ensures
            r == self@.notar.dom().contains(*id),
    {
        self.notar_cert_store_results.contains_key(id)
    }

    /// Sets the write of a notarization certificate.
    pub fn insert_notar_cert_store(&mut self, id: RawCandidateId, result: R) -> (r: Option<R>)
        ensures
            final(self)@ == (DatabaseView {
                notar: old(self)@.notar.insert(id, result),
                ..old(self)@
            }),
            r == lookup(old(self)@.notar, id),
    {
        self.notar_cert_store_results.insert(id, result)
    }

    /// Forgets the write of a notarization certificate.
    pub fn remove_notar_cert_store(&mut self, id: &RawCandidateId) -> (r: Option<R>)
        ensures
            final(self)@ == (DatabaseView { notar: old(self)@.notar.remove(*id), ..old(self)@ }),
            r == lookup(old(self)@.notar, *id),
    {
        self.notar_cert_store_results.remove(id)
    }

    /// The write of a finalization certificate.
    pub fn final_cert_store_result(&self, id: &RawCandidateId) -> (r: Option<&R>)
        ensures
            r is Some <==> self@.fin.dom().contains(*id),
            r matches Some(handle) ==> *handle == self@.fin[*id],
    {
        self.final_cert_store_results.get(id)
    }

    /// Whether the write of a finalization certificate is known.
    pub fn contains_final_cert_store(&self, id: &RawCandidateId) -> (r: bool)
        ensures
            r == self@.fin.dom().contains(*id),
    {
        self.final_cert_store_results.contains_key(id)
    }

    /// Sets the write of a finalization certificate.
    pub fn insert_final_cert_store(&mut self, id: RawCandidateId, result: R) -> (r: Option<R>)
        ensures
            final(self)@ == (DatabaseView {
                fin: old(self)@.fin.insert(id, result),
                ..old(self)@
            }),
            r == lookup(old(self)@.fin, id),
    {
        self.final_cert_store_results.insert(id, result)
    }

    /// Forgets the write of a finalization certificate.
    pub fn remove_final_cert_store(&mut self, id: &RawCandidateId) -> (r: Option<R>)
        ensures
            final(self)@ == (DatabaseView { fin: old(self)@.fin.remove(*id), ..old(self)@ }),
            r == lookup(old(self)@.fin, *id),
    {
        self.final_cert_store_results.remove(id)
    }

    /// The write of a skip certificate.
    pub fn skip_cert_store_result(&self, slot: SlotIndex) -> (r: Option<&R>)
        ensures
            r is Some <==> self@.skip.dom().contains(slot),
            r matches Some(handle) ==> *handle == self@.skip[slot],
    {
        self.skip_cert_store_results.get(&slot)
    }

    /// Whether the write of a skip certificate is known.
    pub fn contains_skip_cert_store(&self, slot: SlotIndex) -> (r: bool)
        ensures
            r == self@.skip.dom().contains(slot),
    {
        self.skip_cert_store_results.contains_key(&slot)
    }

    /// Sets the write of a skip certificate.
    pub fn insert_skip_cert_store(&mut self, slot: SlotIndex, result: R) -> (r: Option<R>)
        ensures
            final(self)@ == (DatabaseView {
                skip: old(self)@.skip.insert(slot, result),
                ..old(self)@
            }),
            r == lookup(old(self)@.skip, slot),
    {
        self.skip_cert_store_results.insert(slot, result)
    }

    /// Forgets the write of a skip certificate.
    pub fn remove_skip_cert_store(&mut self, slot: SlotIndex) -> (r: Option<R>)
        ensures
            final(self)@ == (DatabaseView { skip: old(self)@.skip.remove(slot), ..old(self)@ }),
            r == lookup(old(self)@.skip, slot),
    {
        self.skip_cert_store_results.remove(&slot)
    }

    /// Forgets the writes of slots below `up_to_slot`.
    pub fn prune_below(&mut self, up_to_slot: SlotIndex)
        ensures
            final(self)@ == old(self)@.from_slot(up_to_slot),
    {
        let ghost s = self@;
        let keep = |id: &RawCandidateId, _r: &R| -> (b: bool)
            ensures
                b == (id.slot.0 >= up_to_slot.0),
            { id.slot.0 >= up_to_slot.0 };
        self.candidate_info_store_results.retain(keep);
        assert(self@.infos =~= kept(s.infos, ids_from(up_to_slot)));
        let keep = |id: &RawCandidateId, _r: &R| -> (b: bool)
            ensures
                b == (id.slot.0 >= up_to_slot.0),
            { id.slot.0 >= up_to_slot.0 };
        self.notar_cert_store_results.retain(keep);
        assert(self@.notar =~= kept(s.notar, ids_from(up_to_slot)));
        let keep = |id: &RawCandidateId, _r: &R| -> (b: bool)
            ensures
                b == (id.slot.0 >= up_to_slot.0),
            { id.slot.0 >= up_to_slot.0 };
        self.final_cert_store_results.retain(keep);
        assert(self@.fin =~= kept(s.fin, ids_from(up_to_slot)));
        let keep = |slot: &SlotIndex, _r: &R| -> (b: bool)
            ensures
                b == (slot.0 >= up_to_slot.0),
            { slot.0 >= up_to_slot.0 };
        self.skip_cert_store_results.retain(keep);
        assert(self@.skip =~= kept(s.skip, slots_from(up_to_slot)));
    }

    /// Stores what a candidate's hash was computed from, unless that is stored
    /// or could not be decoded; says whether the write could not be started.
    ///
    /// `save` starts a write and gives its handle.
    pub fn save_candidate_info_to_db<F: FnOnce(&CandidateInfoRecord) -> Option<R>>(
        &mut self,
        slot: SlotIndex,
        candidate_hash: &UInt256,
        leader_idx: ValidatorIndex,
        candidate_hash_data: Option<CandidateHashInput>,
        signature: Vec<u8>,
        save: F,
    ) -> (r: bool)
        requires
            candidate_hash_data is Some && !old(self)@.infos.dom().contains(
                RawCandidateId { slot, hash: *candidate_hash },
            ) ==> call_requires(
                save,
                (&CandidateInfoRecord {
                    candidate_id: RawCandidateId { slot, hash: *candidate_hash },
                    leader_idx: leader_idx.0,
                    candidate_hash_data: candidate_hash_data->Some_0,
                    signature,
                },),
            ),
        ensures
            ({
                let id = RawCandidateId { slot, hash: *candidate_hash };
                if candidate_hash_data is None || old(self)@.infos.dom().contains(id) {
                    !r && final(self)@ == old(self)@
                } else {
                    let record = CandidateInfoRecord {
                        candidate_id: id,
                        leader_idx: leader_idx.0,
                        candidate_hash_data: candidate_hash_data->Some_0,
                        signature,
                    };
                    exists|handle: Option<R>|
                        {
                            &&& #[trigger] call_ensures(save, (&record,), handle)
                            &&& match handle {
                                Some(h) => !r && final(self)@ == (DatabaseView {
                                    infos: old(self)@.infos.insert(id, h),
                                    ..old(self)@
                                }),
                                None => r && final(self)@ == old(self)@,
                            }
                        }
                }
            }),
    {
        let data: CandidateHashInput = match candidate_hash_data {
            Some(d) => d,
            None => {
                return false;
            },
        };
        let id: RawCandidateId = RawCandidateId { slot, hash: *candidate_hash };
        if self.candidate_info_store_results.contains_key(&id) {
            return false;
        }
        let record = CandidateInfoRecord {
            candidate_id: id,
            leader_idx: leader_idx.0,
            candidate_hash_data: data,
            signature,
        };
        let handle: Option<R> = save(&record);
        assert(call_ensures(save, (&record,), handle));
        match handle {
            Some(h) => {
                self.candidate_info_store_results.insert(id, h);
                false
            },
            None => true,
        }
    }

    /// Number of waiting continuations.
    pub fn pending_count(&self) -> (n: usize)
        ensures
            n == self@.pending.len(),
    {
        self.pending_async_db_results.len()
    }

    /// Whether no continuation waits.
    pub fn pending_is_empty(&self) -> (r: bool)
        ensures
            r == (self@.pending.len() == 0),
    {
        self.pending_async_db_results.len() == 0
    }

    /// The handle that the continuation at place `i` waits for.
    pub fn pending_result(&self, i: usize) -> (r: Option<&R>)
        ensures
            match r {
                Some(handle) => i < self@.pending.len() && *handle == self@.pending[
                    i as int].result,
                None => i >= self@.pending.len(),
            },
    {
        if i < self.pending_async_db_results.len() {
            Some(&self.pending_async_db_results[i].result)
        } else {
            None
        }
    }

    /// Lets a continuation wait for a write, but no longer than `timeout`.
    pub fn register_pending(
        &mut self,
        op_label: &'static str,
        result: R,
        on_ready: C,
        now: TimePoint,
        timeout: TimeSpan,
    ) -> (r: PendingAsyncDbId)
        requires
            now.plus(timeout) is Some,
        ensures
            r == old(self)@.next_id,
            final(self)@ == old(self)@.registered(op_label, result, on_ready, now, timeout),
            final(self)@ == (DatabaseView {
                pending: old(self)@.pending.push(
                    PendingAsyncDbEntry {
                        id: old(self)@.next_id,
                        op_label,
                        result,
                        registered_at: now,
                        deadline: now.plus(timeout)->Some_0,
                        on_ready,
                    },
                ),
                next_id: if old(self)@.next_id == u64::MAX {
                    0
                } else {
                    (old(self)@.next_id + 1) as u64
                },
                ..old(self)@
            }),
    {
        let id: PendingAsyncDbId = self.next_pending_async_db_id;
        if id == u64::MAX {
            self.next_pending_async_db_id = 0;
        } else {
            self.next_pending_async_db_id = id + 1;
        }
        let deadline: TimePoint = now.add_or_same(timeout);
        self.pending_async_db_results.push(
            PendingAsyncDbEntry { id, op_label, result, registered_at: now, deadline, on_ready },
        );
        id
    }

    /// Looks at the continuation at place `i`, whose write has the result
    /// `polled`, if it is done. A continuation that waits no more is handed out,
    /// and the last one takes its place.
    pub fn step_pending_drain<E>(
        &mut self,
        i: usize,
        now: TimePoint,
        polled: Option<Result<(), E>>,
    ) -> (r: PendingDrainStep<R, C, E>)
        ensures
            (final(self)@, r) == old(self)@.drained(i as int, now, polled),
            if i >= old(self)@.pending.len() {
                r is Done && final(self)@ == old(self)@
            } else {
                let entry = old(self)@.pending[i as int];
                match polled {
                    Some(result) => {
                        &&& r == PendingDrainStep::Ready { entry, result }
                        &&& final(self)@ == old(self)@.popped(i as int)
                    },
                    None => if entry.deadline.nanos <= now.nanos {
                        &&& r == PendingDrainStep::<R, C, E>::TimedOut { entry }
                        &&& final(self)@ == old(self)@.popped(i as int)
                    } else {
                        &&& r is Pending
                        &&& final(self)@ == old(self)@
                    },
                }
            },
    {
        if i >= self.pending_async_db_results.len() {
            return PendingDrainStep::Done;
        }
        let timed_out: bool = self.pending_async_db_results[i].deadline.nanos <= now.nanos;
        match polled {
            Some(result) => {
                let entry: PendingAsyncDbEntry<R, C> = self.pending_async_db_results.swap_remove(
                    i,
                );
                PendingDrainStep::Ready { entry, result }
            },
            None => if timed_out {
                let entry: PendingAsyncDbEntry<R, C> = self.pending_async_db_results.swap_remove(
                    i,
                );
                PendingDrainStep::TimedOut { entry }
            } else {
                PendingDrainStep::Pending
            },
        }
    }

    /// Says whether what a vote waited for is stored, given the result of the
    /// write, unless somebody else took it meanwhile. After a failure the write
    /// is forgotten, so that it can be made again.
    pub fn classify_durability_wait_outcome<E>(
        &mut self,
        outcome: Option<Result<(), WriteError<E>>>,
        kind: DurabilityWaitKind,
        candidate_id: &RawCandidateId,
    ) -> (r: Result<(), DurabilityError<E>>)
        ensures
            (final(self)@, r) == old(self)@.judged(outcome, kind, *candidate_id),
            match outcome {
                None | Some(Ok(())) => r is Ok && final(self)@ == old(self)@,
                Some(Err(WriteError::AlreadyTaken)) => {
                    &&& final(self)@ == old(self)@
                    &&& if old(self)@.knows(kind, *candidate_id) {
                        r is Ok
                    } else {
                        r == Err::<(), DurabilityError<E>>(DurabilityError::TakenAfterFailure)
                    }
                },
                Some(Err(WriteError::Storage(e))) => {
                    &&& final(self)@ == old(self)@.forgets(kind, *candidate_id)
                    &&& r == Err::<(), DurabilityError<E>>(DurabilityError::Storage(e))
                },
            },
    {
        match outcome {
            None => Ok(()),
            Some(Ok(())) => Ok(()),
            Some(Err(WriteError::AlreadyTaken)) => {
                let known: bool = match kind {
                    DurabilityWaitKind::CandidateInfo => self.contains_candidate_info_store(
                        candidate_id,
                    ),
                    DurabilityWaitKind::NotarCert => self.contains_notar_cert_store(candidate_id),
                };
                if known {
                    Ok(())
                } else {
                    Err(DurabilityError::TakenAfterFailure)
                }
            },
            Some(Err(WriteError::Storage(e))) => {
                match kind {
                    DurabilityWaitKind::CandidateInfo => {
                        self.candidate_info_store_results.remove(candidate_id);
                    },
                    DurabilityWaitKind::NotarCert => {
                        self.notar_cert_store_results.remove(candidate_id);
                    },
                }
                Err(DurabilityError::Storage(e))
            },
        }
    }
}

/// Every continuation is handed out once: taking out the one at place `i` keeps
/// all others, and only the last one changes its place.
pub proof fn draining_loses_nothing<R, C>(s: DatabaseView<R, C>, i: int)
    requires
        0 <= i < s.pending.len(),
    ensures
        s.popped(i).pending.len() == s.pending.len() - 1,
        s.pending.to_multiset() == s.popped(i).pending.to_multiset().insert(s.pending[i]),
        forall|j: int|
            0 <= j < s.popped(i).pending.len() && j != i ==> #[trigger] s.popped(i).pending[j]
                == s.pending[j],
{
    broadcast use vstd::seq_lib::group_to_multiset_ensures;

    let all = s.pending;
    let last = all.last();
    let swapped = all.update(i, last);
    let rest = swapped.drop_last();
    assert(swapped =~= rest.push(last));
    vstd::seq_lib::to_multiset_update(all, i, last);
    assert(all.contains(all[i]));
    assert(all.contains(last));
    let m = all.to_multiset();
    assert(m.count(all[i]) > 0);
    assert(rest.to_multiset().insert(last) =~= m.insert(last).remove(all[i]));
    assert forall|x: PendingAsyncDbEntry<R, C>| #[trigger]
        m.count(x) == rest.to_multiset().insert(all[i]).count(x) by {
        assert(rest.to_multiset().insert(last).count(x) == m.insert(last).remove(all[i]).count(x));
    }
    assert(m =~= rest.to_multiset().insert(all[i]));
}

/// A failed write can be made again: once its failure was seen it is not known
/// any more. A result that somebody else took is good as long as the write is
/// known.
pub proof fn failed_writes_are_forgotten<R, C>(
    s: DatabaseView<R, C>,
    kind: DurabilityWaitKind,
    id: RawCandidateId,
    other: RawCandidateId,
)
    ensures
        !s.forgets(kind, id).knows(kind, id),
        other != id ==> s.forgets(kind, id).knows(kind, other) == s.knows(kind, other),
{
}

/// Forgetting in two steps forgets the same as in one.
pub proof fn pruning_writes_composes<R, C>(s: DatabaseView<R, C>, a: SlotIndex, b: SlotIndex)
    requires
        a.0 <= b.0,
    ensures
        s.from_slot(a).from_slot(b) == s.from_slot(b),
{
    assert(s.from_slot(a).from_slot(b) =~= s.from_slot(b));
}

/// Forgetting a write touches that one alone: no other write of its kind, and none of
/// another kind. Forgetting by slot keeps exactly the writes of slots from the given
/// one on; what waits, and what was announced, stays.
pub proof fn forgetting_keeps_the_rest<R, C>(
    s: DatabaseView<R, C>,
    kind: DurabilityWaitKind,
    id: RawCandidateId,
    from: SlotIndex,
    other: RawCandidateId,
)
    ensures
        ({
            let t = s.forgets(kind, id);
            &&& t.infos.dom().contains(other) <==> s.infos.dom().contains(other) && !(kind
                is CandidateInfo && other == id)
            &&& t.notar.dom().contains(other) <==> s.notar.dom().contains(other) && !(kind
                is NotarCert && other == id)
            &&& t.infos.dom().contains(other) ==> t.infos[other] == s.infos[other]
            &&& t.notar.dom().contains(other) ==> t.notar[other] == s.notar[other]
            &&& t.fin == s.fin && t.skip == s.skip && t.pending == s.pending && t.window == s.window
        }),
        s.knows(DurabilityWaitKind::CandidateInfo, other) <==> s.infos.dom().contains(other),
        s.knows(DurabilityWaitKind::NotarCert, other) <==> s.notar.dom().contains(other),
        ({
            let t = s.from_slot(from);
            let later = other.slot.0 >= from.0;
            &&& t.infos.dom().contains(other) <==> s.infos.dom().contains(other) && later
            &&& t.notar.dom().contains(other) <==> s.notar.dom().contains(other) && later
            &&& t.fin.dom().contains(other) <==> s.fin.dom().contains(other) && later
            &&& t.skip.dom().contains(other.slot) <==> s.skip.dom().contains(other.slot) && later
            &&& t.infos.dom().contains(other) ==> t.infos[other] == s.infos[other]
            &&& t.notar.dom().contains(other) ==> t.notar[other] == s.notar[other]
            &&& t.fin.dom().contains(other) ==> t.fin[other] == s.fin[other]
            &&& t.pending == s.pending && t.window == s.window && t.next_id == s.next_id
        }),
{
}

/// A continuation waits until its write is done, but no longer than its timeout, both
/// counted from when it was registered: a done write hands it out with the write's
/// result at whatever time; without one it waits on before the timeout and is handed
/// out as timed out from then on. Each continuation gets a number of its own.
pub proof fn waits_end_in_time<R, C, E>(
    s: DatabaseView<R, C>,
    op_label: &'static str,
    result: R,
    on_ready: C,
    now: TimePoint,
    timeout: TimeSpan,
    later: TimePoint,
    outcome: Result<(), E>,
)
    requires
        timeout.nanos <= crate::time::TIME_SPAN_MAX,
        now.nanos + timeout.nanos <= crate::time::TIME_POINT_MAX,
    ensures
        ({
            let t = s.registered(op_label, result, on_ready, now, timeout);
            let i = s.pending.len() as int;
            let waiting = t.drained::<E>(i, later, None);
            let ready = t.drained(i, later, Some(outcome));
            &&& t.pending.len() == s.pending.len() + 1
            &&& t.pending[i].result == result && t.pending[i].on_ready == on_ready
            &&& t.pending[i].id == s.next_id && t.next_id != s.next_id
            &&& s.next_id < u64::MAX ==> t.next_id == s.next_id + 1
            &&& waiting.1 is Pending <==> later.nanos < now.nanos + timeout.nanos
            &&& waiting.1 is Pending ==> waiting.0 == t
            &&& waiting.1 is TimedOut <==> later.nanos >= now.nanos + timeout.nanos
            &&& waiting.1 matches PendingDrainStep::TimedOut { entry } ==> entry == t.pending[i]
                && waiting.0.pending == s.pending
            &&& ready.1 matches PendingDrainStep::Ready { entry, result: got } && entry
                == t.pending[i] && got == outcome
            &&& ready.0.pending == s.pending
            &&& t.drained::<E>(i + 1, later, None).1 is Done
        }),
{
    let t = s.registered(op_label, result, on_ready, now, timeout);
    let i = s.pending.len() as int;
    assert(t.popped(i).pending =~= s.pending);
}

/// A vote may go out exactly if its write did not fail: it worked, nobody had to wait
/// for it, or somebody else took its result and the write is still known. Only a
/// failure of the storage makes the write forgotten, and that failure is handed on.
pub proof fn votes_wait_for_their_writes<R, C, E>(
    s: DatabaseView<R, C>,
    outcome: Option<Result<(), WriteError<E>>>,
    kind: DurabilityWaitKind,
    id: RawCandidateId,
)
    ensures
        ({
            let (t, r) = s.judged(outcome, kind, id);
            let failed = outcome matches Some(Err(WriteError::Storage(_)));
            let taken = outcome matches Some(Err(WriteError::AlreadyTaken));
            &&& r is Ok <==> !failed && (taken ==> s.knows(kind, id))
            &&& failed ==> !t.knows(kind, id)
            &&& !failed ==> t == s
            &&& outcome matches Some(Err(WriteError::Storage(e))) ==> r == Err::<
                (),
                DurabilityError<E>,
            >(DurabilityError::Storage(e))
            &&& taken && r is Err ==> r == Err::<(), DurabilityError<E>>(
                DurabilityError::TakenAfterFailure,
            )
        }),
{
}

} // verus!
