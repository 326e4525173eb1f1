//! What finalization does to its surroundings.

use vstd::prelude::*;

use crate::consensus_controller::FinalizedCallback;
use crate::database::FinalizedBlockRecord;

verus! {

/// All that finalization did through a backend, each call with its answer.
#[verifier::ext_equal]
pub struct BackendCalls {
    /// Records that were to be stored, and whether that worked.
    pub stored: Seq<(FinalizedBlockRecord, bool)>,
    /// Blocks that were handed over, and whether that worked.
    pub handed: Seq<(FinalizedCallback, bool)>,
}

/// The surroundings of finalization: the database and the validator layer.
pub trait ConsensusBackend {
    /// The calls that were made so far.
    spec fn calls(&self) -> BackendCalls;

    /// Stores the record of a finalized block; says whether that worked.
    fn persist_finalized_block(&mut self, record: FinalizedBlockRecord) -> (ok: bool)
        ensures
            final(self).calls() == (BackendCalls {
                stored: old(self).calls().stored.push((record, ok)),
                ..old(self).calls()
            }),
    ;

    /// Hands a finalized block over to the validator layer; says whether that
    /// worked.
    fn notify_block_finalized(&mut self, callback: FinalizedCallback) -> (ok: bool)
        ensures
            final(self).calls() == (BackendCalls {
                handed: old(self).calls().handed.push((callback, ok)),
                ..old(self).calls()
            }),
    ;
}

/// A backend for a session that is replayed: it keeps what it is handed, and
/// answers as it was told.
#[derive(Debug)]
pub struct ReplayBackend {
    /// Records that were to be stored, and what was answered.
    pub stored: Vec<(FinalizedBlockRecord, bool)>,
    /// Blocks that were handed over, and what was answered.
    pub handed: Vec<(FinalizedCallback, bool)>,
    /// Whether storing works.
    pub storing_works: bool,
    /// Whether handing over works.
    pub handing_works: bool,
}

impl ReplayBackend {
    /// A backend that was handed nothing, and where everything works.
    pub fn new() -> (r: Self)
        ensures
            r.calls().stored == Seq::<(FinalizedBlockRecord, bool)>::empty(),
            r.calls().handed == Seq::<(FinalizedCallback, bool)>::empty(),
            r.storing_works,
            r.handing_works,
    {
        ReplayBackend {
            stored: Vec::new(),
            handed: Vec::new(),
            storing_works: true,
            handing_works: true,
        }
    }
}

impl ConsensusBackend for ReplayBackend {
    open spec fn calls(&self) -> BackendCalls {
        BackendCalls { stored: self.stored@, handed: self.handed@ }
    }

    fn persist_finalized_block(&mut self, record: FinalizedBlockRecord) -> (ok: bool)
        ensures
            ok == old(self).storing_works,
            final(self).storing_works == old(self).storing_works,
            final(self).handing_works == old(self).handing_works,
    {
        let ok: bool = self.storing_works;
        self.stored.push((record, ok));
        ok
    }

    fn notify_block_finalized(&mut self, callback: FinalizedCallback) -> (ok: bool)
        ensures
            ok == old(self).handing_works,
            final(self).storing_works == old(self).storing_works,
            final(self).handing_works == old(self).handing_works,
    {
        let ok: bool = self.handing_works;
        self.handed.push((callback, ok));
        ok
    }
}

} // verus!
