use vstd::prelude::*;
use crate::converter::OfficeConverter;
use crate::document::{classify, convertible_of, retained_of};

verus! {

/// Why a request to start a run was turned down.
#[derive(Debug, Clone, Copy, PartialEq, Eq, Structural)]
pub enum ValidationError {
    /// No document was given.
    EmptyDocuments,
    /// No output path was given.
    EmptyOutput,
}

/// Everything a worker needs for one run. The converter travels with it and
/// comes back through `RunState::restore` when the run is over.
pub struct RunJob {
    pub converter: OfficeConverter,
    /// The documents that are already PDFs, in the order given.
    pub retained: Vec<String>,
    /// The documents to convert, in the order given.
    pub convertible: Vec<String>,
    pub output_path: String,
}

/// What became of a request to start a run.
pub enum StartOutcome {
    Rejected(ValidationError),
    /// A run is already under way; nothing changed.
    Ignored,
    Accepted(RunJob),
}

/// The single-flight state of the pipeline. `H` is whatever the caller holds
/// to wait for the worker of the current run. The converter is always in
/// exactly one place: the idle slot, or the job handed to the worker.
pub enum RunState<H> {
    Idle(OfficeConverter),
    Running(H),
    /// Held only while the converter crosses to or from a worker.
    Transferring,
}

impl<H> RunState<H> {
    pub open spec fn wf(&self) -> bool {
        match self {
            RunState::Idle(c) => c.wf(),
            _ => true,
        }
    }

    pub fn new(converter: OfficeConverter) -> (r: RunState<H>)
        requires
            converter.wf(),
        ensures
            r == RunState::<H>::Idle(converter),
            r.wf(),
    {
        RunState::Idle(converter)
    }

    pub fn is_idle(&self) -> (r: bool)
        ensures
            r == self is Idle,
    {
        match self {
            RunState::Idle(_) => true,
            _ => false,
        }
    }

    pub fn is_running(&self) -> (r: bool)
        ensures
            r == self is Running,
    {
        match self {
            RunState::Running(_) => true,
            _ => false,
        }
    }

    pub fn is_transferring(&self) -> (r: bool)
        ensures
            r == self is Transferring,
    {
        match self {
            RunState::Transferring => true,
            _ => false,
        }
    }

    /// Asks for a run over `documents`, merged into `output_path`. An empty
    /// document list or output path is rejected, and a request while a run
    /// is under way is ignored; both leave the state as it was. Otherwise the
    /// documents are classified, the converter moves into the returned job,
    /// and the state is `Transferring` until `launched` records the worker.
    pub fn start(&mut self, documents: &Vec<String>, output_path: &String) -> (r: StartOutcome)
        requires
            old(self).wf(),
        ensures
            final(self).wf(),
            documents.len() == 0 ==> r == StartOutcome::Rejected(ValidationError::EmptyDocuments)
                && *final(self) == *old(self),
            documents.len() > 0 && output_path@.len() == 0 ==> r == StartOutcome::Rejected(
                ValidationError::EmptyOutput,
            ) && *final(self) == *old(self),
            documents.len() > 0 && output_path@.len() > 0 && !((*old(self)) is Idle) ==> r
                == StartOutcome::Ignored && *final(self) == *old(self),
            documents.len() > 0 && output_path@.len() > 0 && (*old(self)) is Idle ==> {
                &&& (*final(self)) is Transferring
                &&& r is Accepted
                &&& r->Accepted_0.converter == (*old(self))->Idle_0
                &&& r->Accepted_0.retained.deep_view() == retained_of(documents.deep_view())
                &&& r->Accepted_0.convertible.deep_view() == convertible_of(documents.deep_view())
                &&& r->Accepted_0.output_path@ == output_path@
            },
    {
        if documents.len() == 0 {
            return StartOutcome::Rejected(ValidationError::EmptyDocuments);
        }
        if output_path.as_str().unicode_len() == 0 {
            return StartOutcome::Rejected(ValidationError::EmptyOutput);
        }
        let mut taken = RunState::Transferring;
        std::mem::swap(self, &mut taken);
        match taken {
            RunState::Idle(converter) => {
                let (retained, convertible) = classify(documents);
                StartOutcome::Accepted(
                    RunJob { converter, retained, convertible, output_path: output_path.clone() },
                )
            },
            other => {
                *self = other;
                StartOutcome::Ignored
            },
        }
    }

    /// Records the worker of the run that `start` accepted.
    pub fn launched(&mut self, handle: H)
        requires
            (*old(self)) is Transferring,
        ensures
            *final(self) == RunState::<H>::Running(handle),
            final(self).wf(),
    {
        *self = RunState::Running(handle);
    }

    /// On the completion signal: hands back what waits for the worker and
    /// leaves the state `Transferring` until `restore`. Outside a run
    /// nothing changes.
    pub fn finish(&mut self) -> (r: Option<H>)
        requires
            old(self).wf(),
        ensures
            final(self).wf(),
            (*old(self)) is Running ==> r == Some((*old(self))->Running_0) && (*final(self)) is Transferring,
            !((*old(self)) is Running) ==> r is None && *final(self) == *old(self),
    {
        let mut taken = RunState::Transferring;
        std::mem::swap(self, &mut taken);
        match taken {
            RunState::Running(handle) => Some(handle),
            other => {
                *self = other;
                None
            },
        }
    }

    /// Puts the converter that a finished worker gave back into the idle slot.
    pub fn restore(&mut self, converter: OfficeConverter)
        requires
            (*old(self)) is Transferring,
            converter.wf(),
        ensures
            *final(self) == RunState::<H>::Idle(converter),
            final(self).wf(),
    {
        *self = RunState::Idle(converter);
    }
}

} // verus!
