use pty_middleware::middleware::chain::{Direction, MiddlewareChain};
use pty_middleware::middleware::context_buffer::ContextBuffer;
use pty_middleware::middleware::layer::Layer;
use pty_middleware::middleware::passthrough::PassthroughLayer;
use pty_middleware::middleware::MiddlewareTrait;

fn contexts(chain: &MiddlewareChain<Layer>) -> Vec<String> {
    (0..chain.len())
        .filter_map(|i| match chain.stage(i) {
            Layer::Context(c) => Some(c.get_context()),
            Layer::Passthrough(_) => None,
        })
        .collect()
}

#[test]
fn every_stage_sees_each_output_chunk_once() {
    let mut chain = MiddlewareChain::new(vec![
        Layer::Context(ContextBuffer::new(3)),
        Layer::Passthrough(PassthroughLayer::new()),
        Layer::Context(ContextBuffer::new(8)),
    ]);
    assert_eq!(chain.apply_output(b"ab"), Some(b"ab".to_vec()));
    assert_eq!(chain.apply_output(b"cd"), Some(b"cd".to_vec()));
    assert_eq!(contexts(&chain), vec!["bcd".to_string(), "abcd".to_string()]);
}

#[test]
fn reversed_chain_gives_same_passthrough_result() {
    let mut chain = MiddlewareChain::new(vec![
        Layer::Context(ContextBuffer::new(8)),
        Layer::Context(ContextBuffer::new(3)),
    ]);
    assert_eq!(chain.apply(Direction::Output, b"abcd"), Some(b"abcd".to_vec()));
    assert_eq!(contexts(&chain), vec!["abcd".to_string(), "bcd".to_string()]);
}

#[test]
fn empty_chain_returns_chunk() {
    let mut chain: MiddlewareChain<Layer> = MiddlewareChain::new(Vec::new());
    assert_eq!(chain.apply_output(b"abc"), Some(b"abc".to_vec()));
    assert_eq!(chain.apply_input(b""), Some(Vec::new()));
    assert_eq!(chain.len(), 0);
}

#[test]
fn passthrough_chain_is_identity() {
    let mut chain = MiddlewareChain::new(vec![
        Layer::Passthrough(PassthroughLayer::new()),
        Layer::Context(ContextBuffer::new(16)),
        Layer::Passthrough(PassthroughLayer::new()),
    ]);
    let data = vec![0u8, 1, 2, 0xff, b'\n'];
    assert_eq!(chain.apply_output(&data), Some(data.clone()));
    assert_eq!(chain.apply_input(&data), Some(data.clone()));
    assert_eq!(chain.apply_output(b""), Some(Vec::new()));
}

#[test]
fn context_stage_in_chain_records_output_only() {
    let mut chain = MiddlewareChain::new(vec![
        Layer::Passthrough(PassthroughLayer::new()),
        Layer::Context(ContextBuffer::new(4)),
    ]);
    chain.apply_output(b"hello");
    chain.apply_input(b"typed");
    match chain.stage(1) {
        Layer::Context(c) => assert_eq!(c.get_context(), "ello"),
        Layer::Passthrough(_) => panic!("expected a context buffer"),
    }
}

#[test]
fn passthrough_layer_forwards_both_ways() {
    let mut p = PassthroughLayer::new();
    assert_eq!(p.on_process_output(b"out"), Some(b"out".to_vec()));
    assert_eq!(p.on_user_input(b"in"), Some(b"in".to_vec()));
}
