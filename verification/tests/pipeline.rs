use gzcomp::codec::CodecError;
use gzcomp::pipeline::Action;
use gzcomp::pipeline::Cause;
use gzcomp::pipeline::ConfigError;
use gzcomp::pipeline::Event;
use gzcomp::pipeline::IoError;
use gzcomp::pipeline::Mode;
use gzcomp::pipeline::Outcome;
use gzcomp::pipeline::PipelineState;
use gzcomp::pipeline::Stage;
use gzcomp::pipeline::outcome_of;
use gzcomp::pipeline::resolve_mode;
use gzcomp::pipeline::step;

#[test]
fn mode_compress_alone() {
    assert_eq!(resolve_mode(true, false), Ok(Mode::Compress));
}

#[test]
fn mode_decompress_alone() {
    assert_eq!(resolve_mode(false, true), Ok(Mode::Decompress));
}

#[test]
fn mode_both_flags_rejected() {
    assert_eq!(resolve_mode(true, true), Err(ConfigError::BothModes));
}

#[test]
fn mode_neither_flag_rejected() {
    assert_eq!(resolve_mode(false, false), Err(ConfigError::NeitherMode));
}

#[test]
fn missing_input_fails_in_reading_and_asks_no_write() {
    let (s1, a1) = step(Mode::Compress, PipelineState::Start, Event::Begin);
    assert_eq!(s1, PipelineState::AwaitingRead);
    assert!(matches!(a1, Action::DoRead));
    let (s2, a2) = step(Mode::Compress, s1, Event::ReadResult(Err(IoError::NotFound)));
    assert_eq!(s2, PipelineState::Failed(Stage::Reading, Cause::Io(IoError::NotFound)));
    assert!(matches!(a2, Action::Stop));
    assert_eq!(
        outcome_of(s2),
        Some(Outcome::Failed(Stage::Reading, Cause::Io(IoError::NotFound)))
    );
}

#[test]
fn compress_then_decompress_flow() {
    let input = b"hello world".to_vec();

    let (s1, a1) = step(Mode::Compress, PipelineState::Start, Event::Begin);
    assert!(matches!(a1, Action::DoRead));
    let (s2, a2) = step(Mode::Compress, s1, Event::ReadResult(Ok(input.clone())));
    let compressed = match a2 {
        Action::DoWrite(buf) => buf,
        _ => panic!("expected a write action"),
    };
    assert_eq!(s2, PipelineState::AwaitingWrite(compressed.len()));
    assert_eq!(&compressed[..3], &[0x1f, 0x8b, 0x08]);
    let (s3, a3) = step(Mode::Compress, s2, Event::WriteResult(Ok(())));
    assert_eq!(s3, PipelineState::Done(compressed.len()));
    assert!(matches!(a3, Action::Stop));
    assert_eq!(outcome_of(s3), Some(Outcome::Success(compressed.len())));

    let (t1, b1) = step(Mode::Decompress, PipelineState::Start, Event::Begin);
    assert!(matches!(b1, Action::DoRead));
    let (t2, b2) = step(Mode::Decompress, t1, Event::ReadResult(Ok(compressed)));
    let recovered = match b2 {
        Action::DoWrite(buf) => buf,
        _ => panic!("expected a write action"),
    };
    assert_eq!(recovered, input);
    assert_eq!(t2, PipelineState::AwaitingWrite(recovered.len()));
    let (t3, _) = step(Mode::Decompress, t2, Event::WriteResult(Ok(())));
    assert_eq!(outcome_of(t3), Some(Outcome::Success(recovered.len())));
}

#[test]
fn invalid_input_fails_in_transforming() {
    let (s1, _) = step(Mode::Decompress, PipelineState::Start, Event::Begin);
    let garbage = b"this is not a gzip stream".to_vec();
    let (s2, a2) = step(Mode::Decompress, s1, Event::ReadResult(Ok(garbage)));
    assert_eq!(
        s2,
        PipelineState::Failed(Stage::Transforming, Cause::Codec(CodecError::InvalidFormat))
    );
    assert!(matches!(a2, Action::Stop));
}

#[test]
fn write_failure_fails_in_writing() {
    let (s1, _) = step(Mode::Compress, PipelineState::Start, Event::Begin);
    let (s2, a2) = step(Mode::Compress, s1, Event::ReadResult(Ok(b"abc".to_vec())));
    assert!(matches!(a2, Action::DoWrite(_)));
    let (s3, a3) = step(Mode::Compress, s2, Event::WriteResult(Err(IoError::WriteFailed)));
    assert_eq!(s3, PipelineState::Failed(Stage::Writing, Cause::Io(IoError::WriteFailed)));
    assert!(matches!(a3, Action::Stop));
    assert_eq!(
        outcome_of(s3),
        Some(Outcome::Failed(Stage::Writing, Cause::Io(IoError::WriteFailed)))
    );
}

#[test]
fn stray_event_is_ignored() {
    let (s, a) = step(Mode::Compress, PipelineState::Done(5), Event::Begin);
    assert_eq!(s, PipelineState::Done(5));
    assert!(matches!(a, Action::Stop));
    assert_eq!(outcome_of(PipelineState::AwaitingRead), None);
}
