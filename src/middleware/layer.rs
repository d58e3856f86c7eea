//! The stages this library provides, as one type so that a chain can mix them.
use vstd::prelude::*;

use crate::middleware::chain::{law_passthrough_chain, run_chain, stage_result, Direction};
use crate::middleware::context_buffer::ContextBuffer;
use crate::middleware::passthrough::PassthroughLayer;
use crate::middleware::MiddlewareTrait;

verus! {

/// One of the library's stages.
pub enum Layer {
    Passthrough(PassthroughLayer),
    Context(ContextBuffer),
}

impl MiddlewareTrait for Layer {
    open spec fn wf(&self) -> bool {
        match self {
            Layer::Passthrough(p) => p.wf(),
            Layer::Context(c) => c.wf(),
        }
    }

    open spec fn output_result(&self, data: Seq<u8>) -> Option<Seq<u8>> {
        match self {
            Layer::Passthrough(p) => p.output_result(data),
            Layer::Context(c) => c.output_result(data),
        }
    }

    open spec fn output_next(&self, data: Seq<u8>, next: Self) -> bool {
        match (self, next) {
            (Layer::Passthrough(p), Layer::Passthrough(q)) => p.output_next(data, q),
            (Layer::Context(c), Layer::Context(d)) => c.output_next(data, d),
            _ => false,
        }
    }

    open spec fn input_result(&self, data: Seq<u8>) -> Option<Seq<u8>> {
        match self {
            Layer::Passthrough(p) => p.input_result(data),
            Layer::Context(c) => c.input_result(data),
        }
    }

    open spec fn input_next(&self, data: Seq<u8>, next: Self) -> bool {
        match (self, next) {
            (Layer::Passthrough(p), Layer::Passthrough(q)) => p.input_next(data, q),
            (Layer::Context(c), Layer::Context(d)) => c.input_next(data, d),
            _ => false,
        }
    }

    fn on_process_output(&mut self, data: &[u8]) -> (r: Option<Vec<u8>>) {
        match self {
            Layer::Passthrough(p) => p.on_process_output(data),
            Layer::Context(c) => c.on_process_output(data),
        }
    }

    fn on_user_input(&mut self, data: &[u8]) -> (r: Option<Vec<u8>>) {
        match self {
            Layer::Passthrough(p) => p.on_user_input(data),
            Layer::Context(c) => c.on_user_input(data),
        }
    }
}

/// Every stage this library provides forwards both directions unchanged, so a
/// chain made of them returns each chunk as it came.
pub proof fn law_layers_pass_through(stages: Seq<Layer>, dir: Direction, d: Seq<u8>)
    ensures
        run_chain(stages, dir, Some(d)) == Some(d),
{
    assert forall|i: int, x: Seq<u8>| 0 <= i < stages.len() implies #[trigger] stage_result(
        stages[i],
        dir,
        x,
    ) == Some(x) by {}
    law_passthrough_chain(stages, dir, d);
}

} // verus!
