use pty_middleware::middleware::chain::MiddlewareChain;
use pty_middleware::middleware::layer::Layer;
use pty_middleware::middleware::passthrough::PassthroughLayer;
use pty_middleware::session::{
    default_chain, prepare_write, resolve_shell, ReadOutcome, ReaderAction, ReaderLoop,
    ReaderState, DEFAULT_CONTEXT_CAPACITY,
};

fn context_of(chain: &MiddlewareChain<Layer>) -> String {
    match chain.stage(0) {
        Layer::Context(c) => c.get_context(),
        Layer::Passthrough(_) => panic!("expected a context buffer"),
    }
}

#[test]
fn shell_from_environment() {
    assert_eq!(resolve_shell(Some("/bin/zsh".to_string())), "/bin/zsh");
}

#[test]
fn shell_falls_back_to_bash() {
    assert_eq!(resolve_shell(None), "bash");
}

#[test]
fn default_chain_holds_one_empty_context_buffer() {
    let chain = default_chain();
    assert_eq!(chain.len(), 1);
    match chain.stage(0) {
        Layer::Context(c) => {
            assert_eq!(c.capacity(), DEFAULT_CONTEXT_CAPACITY);
            assert_eq!(c.capacity(), 1024 * 1024);
            assert_eq!(c.get_context(), "");
        }
        Layer::Passthrough(_) => panic!("expected a context buffer"),
    }
}

#[test]
fn echoed_output_is_forwarded_as_text() {
    let mut chain = default_chain();
    let mut reader = ReaderLoop::new();
    let sent = prepare_write(&mut chain, "echo hi\n");
    assert_eq!(sent, Some(b"echo hi\n".to_vec()));
    match reader.step(&mut chain, ReadOutcome::Data(b"echo hi\r\nhi\r\n".to_vec())) {
        ReaderAction::Forward(text) => assert!(text.contains("hi")),
        _ => panic!("expected forwarded text"),
    }
    assert_eq!(reader.state(), ReaderState::Reading);
    assert_eq!(context_of(&chain), "echo hi\r\nhi\r\n");
}

#[test]
fn forwarded_text_is_decoded_lossily() {
    let mut chain = default_chain();
    let mut reader = ReaderLoop::new();
    match reader.step(&mut chain, ReadOutcome::Data(vec![b'a', 0xc3])) {
        ReaderAction::Forward(text) => assert_eq!(text, "a\u{FFFD}"),
        _ => panic!("expected forwarded text"),
    }
}

#[test]
fn end_of_stream_notifies_once() {
    let mut chain = default_chain();
    let mut reader = ReaderLoop::new();
    assert!(matches!(reader.step(&mut chain, ReadOutcome::Data(b"x".to_vec())), ReaderAction::Forward(_)));
    assert!(matches!(reader.step(&mut chain, ReadOutcome::Data(Vec::new())), ReaderAction::NotifyExit));
    assert_eq!(reader.state(), ReaderState::Exited);
    assert!(matches!(reader.step(&mut chain, ReadOutcome::Data(b"late".to_vec())), ReaderAction::Halt));
    assert!(matches!(reader.step(&mut chain, ReadOutcome::Failed), ReaderAction::Halt));
    assert_eq!(context_of(&chain), "x");
}

#[test]
fn read_error_ends_session() {
    let mut chain = default_chain();
    let mut reader = ReaderLoop::new();
    assert!(matches!(reader.step(&mut chain, ReadOutcome::Failed), ReaderAction::NotifyExit));
    assert_eq!(reader.state(), ReaderState::Exited);
    assert!(matches!(reader.step(&mut chain, ReadOutcome::Failed), ReaderAction::Halt));
}

#[test]
fn empty_read_chunk_after_data_still_ends() {
    let mut chain = MiddlewareChain::new(vec![Layer::Passthrough(PassthroughLayer::new())]);
    let mut reader = ReaderLoop::new();
    match reader.step(&mut chain, ReadOutcome::Data(b"ok".to_vec())) {
        ReaderAction::Forward(text) => assert_eq!(text, "ok"),
        _ => panic!("expected forwarded text"),
    }
    assert!(matches!(reader.step(&mut chain, ReadOutcome::Data(Vec::new())), ReaderAction::NotifyExit));
}

#[test]
fn empty_input_passes_as_empty() {
    let mut chain = MiddlewareChain::new(vec![Layer::Passthrough(PassthroughLayer::new())]);
    assert_eq!(prepare_write(&mut chain, ""), Some(Vec::new()));
}
