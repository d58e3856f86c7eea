//! A stage that forwards every chunk unchanged.
use vstd::prelude::*;
use vstd::slice::slice_to_vec;

use crate::middleware::{chunk_view, MiddlewareTrait};

verus! {

/// Forwards both directions unchanged and keeps no state.
pub struct PassthroughLayer;

impl PassthroughLayer {
    pub fn new() -> Self {
        PassthroughLayer
    }
}

impl MiddlewareTrait for PassthroughLayer {
    open spec fn wf(&self) -> bool {
        true
    }

    open spec fn output_result(&self, data: Seq<u8>) -> Option<Seq<u8>> {
        Some(data)
    }

    open spec fn output_next(&self, data: Seq<u8>, next: Self) -> bool {
        true
    }

    open spec fn input_result(&self, data: Seq<u8>) -> Option<Seq<u8>> {
        Some(data)
    }

    open spec fn input_next(&self, data: Seq<u8>, next: Self) -> bool {
        true
    }

    fn on_process_output(&mut self, data: &[u8]) -> (r: Option<Vec<u8>>) {
        Some(slice_to_vec(data))
    }

    fn on_user_input(&mut self, data: &[u8]) -> (r: Option<Vec<u8>>) {
        Some(slice_to_vec(data))
    }
}

} // verus!
