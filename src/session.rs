//! The decisions of a terminal session: which shell to start, which stages
//! its chain starts with, and what the background reader does with each read.
use vstd::prelude::*;
use vstd::string::StringSliceAdditionalSpecFns;

use crate::middleware::chain::{run_chain, stage_moved, Direction, MiddlewareChain};
use crate::middleware::context_buffer::ContextBuffer;
use crate::middleware::layer::Layer;
use crate::middleware::{chunk_view, MiddlewareTrait};
use crate::text::{decode_lossy, lossy_text};

verus! {

/// How many output bytes a new session keeps as context.
pub const DEFAULT_CONTEXT_CAPACITY: usize = 1048576;

/// The shell started when the environment names none.
pub open spec fn default_shell() -> Seq<char> {
    seq!['b', 'a', 's', 'h']
}

/// The shell program to start: the one the environment names, else `bash`.
pub fn resolve_shell(from_env: Option<String>) -> (r: String)
    ensures
        match from_env {
            Some(s) => r@ == s@,
            None => r@ == default_shell(),
        },
{
    match from_env {
        Some(s) => s,
        None => {
            let r = "bash".to_string();
            proof {
                reveal_strlit("bash");
            }
            assert(r@ =~= default_shell());
            r
        },
    }
}

/// The chain a new session starts with: one context buffer, empty, of the
/// default capacity.
pub fn default_chain() -> (r: MiddlewareChain<Layer>)
    ensures
        r.wf(),
        r@.len() == 1,
        match r@[0] {
            Layer::Context(c) => c.capacity_spec() == DEFAULT_CONTEXT_CAPACITY && c@ == Seq::<
                u8,
            >::empty(),
            _ => false,
        },
{
    let mut stages: Vec<Layer> = Vec::new();
    stages.push(Layer::Context(ContextBuffer::new(DEFAULT_CONTEXT_CAPACITY)));
    MiddlewareChain::new(stages)
}

/// Whether the background reader is still reading.
#[derive(Clone, Copy, Debug, PartialEq, Eq)]
pub enum ReaderState {
    Reading,
    Exited,
}

/// What one read from the terminal gave: bytes (none at end of stream), or
/// an error.
pub enum ReadOutcome {
    Data(Vec<u8>),
    Failed,
}

/// What the reader is to do after a read.
pub enum ReaderAction {
    /// Deliver this text to the sink and read again.
    Forward(String),
    /// Deliver nothing, the chunk having been suppressed, and read again.
    Continue,
    /// Deliver the end-of-session notice and stop reading.
    NotifyExit,
    /// The session has already ended: do nothing and stop.
    Halt,
}

/// Whether a read outcome ends the session: end of stream or an error.
pub open spec fn ends_session(outcome: ReadOutcome) -> bool {
    match outcome {
        ReadOutcome::Data(b) => b@.len() == 0,
        ReadOutcome::Failed => true,
    }
}

/// The action for what the chain let through: every surviving chunk, empty
/// or not, is forwarded as its text; a suppressed one is not.
pub open spec fn forward_action(a: ReaderAction, out: Option<Seq<u8>>) -> bool {
    match out {
        Some(p) => match a {
            ReaderAction::Forward(t) => t@ == lossy_text(p),
            _ => false,
        },
        None => a is Continue,
    }
}

/// The background reader of one session, as a state machine over read
/// outcomes. Once it has exited it stays exited.
pub struct ReaderLoop {
    state: ReaderState,
}

impl ReaderLoop {
    pub closed spec fn state_spec(&self) -> ReaderState {
        self.state
    }

    pub fn new() -> (r: Self)
        ensures
            r.state_spec() == ReaderState::Reading,
    {
        ReaderLoop { state: ReaderState::Reading }
    }

    pub fn state(&self) -> (r: ReaderState)
        ensures
            r == self.state_spec(),
    {
        self.state
    }

    /// Takes one read outcome. While reading, a non-empty chunk goes through
    /// the chain's output path and what survives, even if empty, is to be
    /// forwarded; an empty read or an error ends the session, with exactly one
    /// notice. After that nothing reaches the chain again.
    pub fn step<S: MiddlewareTrait>(
        &mut self,
        chain: &mut MiddlewareChain<S>,
        outcome: ReadOutcome,
    ) -> (r: ReaderAction)
        requires
            old(chain).wf(),
        ensures
            final(chain).wf(),
            old(self).state_spec() == ReaderState::Exited ==> {
                &&& r is Halt
                &&& final(self).state_spec() == ReaderState::Exited
                &&& final(chain)@ == old(chain)@
            },
            old(self).state_spec() == ReaderState::Reading && ends_session(outcome) ==> {
                &&& r is NotifyExit
                &&& final(self).state_spec() == ReaderState::Exited
                &&& final(chain)@ == old(chain)@
            },
            old(self).state_spec() == ReaderState::Reading && !ends_session(outcome) ==> {
                &&& final(self).state_spec() == ReaderState::Reading
                &&& outcome matches ReadOutcome::Data(b)
                &&& forward_action(r, run_chain(old(chain)@, Direction::Output, Some(b@)))
                &&& final(chain)@.len() == old(chain)@.len()
                &&& forall|i: int|
                    0 <= i < old(chain)@.len() ==> #[trigger] stage_moved(
                        old(chain)@,
                        final(chain)@,
                        Direction::Output,
                        b@,
                        i,
                    )
            },
    {
        match self.state {
            ReaderState::Exited => ReaderAction::Halt,
            ReaderState::Reading => match outcome {
                ReadOutcome::Data(b) => {
                    if b.len() == 0 {
                        self.state = ReaderState::Exited;
                        ReaderAction::NotifyExit
                    } else {
                        match chain.apply_output(b.as_slice()) {
                            Some(p) => ReaderAction::Forward(decode_lossy(p.as_slice())),
                            None => ReaderAction::Continue,
                        }
                    }
                },
                ReadOutcome::Failed => {
                    self.state = ReaderState::Exited;
                    ReaderAction::NotifyExit
                },
            },
        }
    }
}

/// What a write sends to the process: the input chunk after the chain's input
/// path, or `None` when a stage suppressed it and nothing is to be written.
pub fn prepare_write<S: MiddlewareTrait>(chain: &mut MiddlewareChain<S>, data: &str) -> (r: Option<
    Vec<u8>,
>)
    requires
        old(chain).wf(),
    ensures
        final(chain).wf(),
        chunk_view(r) == run_chain(
            old(chain)@,
            Direction::Input,
            Some(data.spec_bytes()),
        ),
        final(chain)@.len() == old(chain)@.len(),
        forall|i: int|
            0 <= i < old(chain)@.len() ==> #[trigger] stage_moved(
                old(chain)@,
                final(chain)@,
                Direction::Input,
                data.spec_bytes(),
                i,
            ),
{
    chain.apply_input(data.as_bytes())
}

} // verus!
