use crlfify_stdio::forwarder::{
    Completion, Forwarder, StreamAction, StreamErrorKind, StreamEvent, completion_is_success,
};

#[test]
fn inserts_cr_before_lone_lf() {
    let mut f = Forwarder::new();
    let out = f.push_chunk(b"a\nb\r\nc");
    assert_eq!(out, b"a\r\nb\r\nc".to_vec());
}

#[test]
fn passes_crlf_unchanged() {
    let mut f = Forwarder::new();
    let out = f.push_chunk(b"a\r\nb\r\n");
    assert_eq!(out, b"a\r\nb\r\n".to_vec());
}

#[test]
fn lone_cr_passes_through() {
    let mut f = Forwarder::new();
    let out = f.push_chunk(b"a\rb");
    assert_eq!(out, b"a\rb".to_vec());
}

#[test]
fn lf_at_stream_start_gets_cr() {
    let mut f = Forwarder::new();
    let out = f.push_chunk(b"\n");
    assert_eq!(out, b"\r\n".to_vec());
}

#[test]
fn empty_chunk_writes_nothing() {
    let mut f = Forwarder::new();
    let out = f.push_chunk(b"");
    assert_eq!(out, Vec::<u8>::new());
}

#[test]
fn transform_is_idempotent() {
    let mut f = Forwarder::new();
    let once = f.push_chunk(b"one\ntwo\r\nthree\rfour\n");
    let mut again = Forwarder::new();
    let twice = again.push_chunk(&once);
    assert_eq!(twice, once);
}

#[test]
fn crlf_split_across_chunks_stays_one_pair() {
    let mut f = Forwarder::new();
    let mut out = f.push_chunk(b"a\r");
    out.extend_from_slice(&f.push_chunk(b"\nb"));
    assert_eq!(out, b"a\r\nb".to_vec());
}

#[test]
fn every_chunk_split_gives_the_same_output() {
    let input = b"x\ny\r\n\n\rz\r";
    let mut whole = Forwarder::new();
    let expected = whole.push_chunk(input);
    for cut in 0..=input.len() {
        let mut f = Forwarder::new();
        let mut out = f.push_chunk(&input[..cut]);
        out.extend_from_slice(&f.push_chunk(&input[cut..]));
        assert_eq!(out, expected, "split at {}", cut);
    }
}

#[test]
fn data_event_writes_normalized_bytes() {
    let mut f = Forwarder::new();
    let action = f.step(StreamEvent::Data(b"a\n".to_vec()));
    assert_eq!(action, StreamAction::Write(b"a\r\n".to_vec()));
}

#[test]
fn state_rolls_across_data_events() {
    let mut f = Forwarder::new();
    assert_eq!(
        f.step(StreamEvent::Data(b"a\r".to_vec())),
        StreamAction::Write(b"a\r".to_vec())
    );
    assert_eq!(
        f.step(StreamEvent::Data(b"\nb".to_vec())),
        StreamAction::Write(b"\nb".to_vec())
    );
}

#[test]
fn eof_finishes_with_success() {
    let mut f = Forwarder::new();
    let action = f.step(StreamEvent::ReadEof);
    assert_eq!(action, StreamAction::Finish(Completion::Success));
}

#[test]
fn interrupted_read_is_retried() {
    let mut f = Forwarder::new();
    let action = f.step(StreamEvent::ReadFailed(StreamErrorKind::Interrupted));
    assert_eq!(action, StreamAction::RetryRead);
}

#[test]
fn unexpected_eof_on_read_finishes_with_success() {
    let mut f = Forwarder::new();
    let action = f.step(StreamEvent::ReadFailed(StreamErrorKind::UnexpectedEof));
    assert_eq!(action, StreamAction::Finish(Completion::Success));
}

#[test]
fn broken_pipe_on_read_finishes_with_success() {
    let mut f = Forwarder::new();
    let action = f.step(StreamEvent::ReadFailed(StreamErrorKind::BrokenPipe));
    assert_eq!(action, StreamAction::Finish(Completion::Success));
}

#[test]
fn other_read_error_finishes_with_failure() {
    let mut f = Forwarder::new();
    let action = f.step(StreamEvent::ReadFailed(StreamErrorKind::Other));
    assert_eq!(action, StreamAction::Finish(Completion::Failure));
}

#[test]
fn broken_pipe_on_write_finishes_with_success() {
    let mut f = Forwarder::new();
    let action = f.step(StreamEvent::WriteFailed(StreamErrorKind::BrokenPipe));
    assert_eq!(action, StreamAction::Finish(Completion::Success));
}

#[test]
fn other_write_error_finishes_with_failure() {
    let mut f = Forwarder::new();
    let action = f.step(StreamEvent::WriteFailed(StreamErrorKind::Other));
    assert_eq!(action, StreamAction::Finish(Completion::Failure));
}

#[test]
fn only_success_counts_as_success() {
    assert!(completion_is_success(Completion::Success));
    assert!(!completion_is_success(Completion::Failure));
}
