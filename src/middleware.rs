//! Stages that intercept terminal traffic, and the chain that applies them.
use vstd::prelude::*;

pub mod chain;
pub mod context_buffer;
pub mod layer;
pub mod passthrough;

verus! {

/// The bytes held by an optional chunk, `None` standing for a suppressed chunk.
pub open spec fn chunk_view(c: Option<Vec<u8>>) -> Option<Seq<u8>> {
    match c {
        Some(v) => Some(v@),
        None => None,
    }
}

/// A stage of the chain. Each callback returns `Some` with the (possibly
/// rewritten) bytes to forward, or `None` to suppress the chunk.
///
/// The spec functions describe a stage as a state machine: what it returns for
/// a chunk in its current state, and which states it may move to.
pub trait MiddlewareTrait: Sized {
    /// The stage's own invariant.
    spec fn wf(&self) -> bool;

    /// What the stage returns for an output chunk.
    spec fn output_result(&self, data: Seq<u8>) -> Option<Seq<u8>>;

    /// Whether `next` is a state the stage may be in after an output chunk.
    spec fn output_next(&self, data: Seq<u8>, next: Self) -> bool;

    /// What the stage returns for an input chunk.
    spec fn input_result(&self, data: Seq<u8>) -> Option<Seq<u8>>;

    /// Whether `next` is a state the stage may be in after an input chunk.
    spec fn input_next(&self, data: Seq<u8>, next: Self) -> bool;

    /// Called with data flowing from the process to the user.
    fn on_process_output(&mut self, data: &[u8]) -> (r: Option<Vec<u8>>)
        requires
            old(self).wf(),
        ensures
            final(self).wf(),
            chunk_view(r) == old(self).output_result(data@),
            old(self).output_next(data@, *final(self)),
    ;

    /// Called with data flowing from the user to the process.
    fn on_user_input(&mut self, data: &[u8]) -> (r: Option<Vec<u8>>)
        requires
            old(self).wf(),
        ensures
            final(self).wf(),
            chunk_view(r) == old(self).input_result(data@),
            old(self).input_next(data@, *final(self)),
    ;
}

} // verus!
