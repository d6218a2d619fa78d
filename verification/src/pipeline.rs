//! Pipeline driver: a state machine that runs one file pair through
//! read -> transform -> write. The caller performs the file I/O that each
//! action asks for and feeds the result back as an event; every decision,
//! and the transform itself, happens here.
use vstd::prelude::*;

use crate::codec::CodecError;
use crate::codec::compress;
use crate::codec::decompress;
use crate::codec::gunzip;
use crate::codec::gzip_frame;

verus! {

/// The exclusive choice the pipeline runs under.
#[derive(Clone, Copy, PartialEq, Eq, Structural, Debug)]
pub enum Mode {
    Compress,
    Decompress,
}

/// A configuration fault in resolving the mode: exactly one of the two
/// flags must be set.
#[derive(Clone, Copy, PartialEq, Eq, Structural, Debug)]
pub enum ConfigError {
    BothModes,
    NeitherMode,
}

/// The pipeline stage a failure is attributed to.
#[derive(Clone, Copy, PartialEq, Eq, Structural, Debug)]
pub enum Stage {
    Reading,
    Transforming,
    Writing,
}

/// An I/O fault reported by the caller that performed the read or write.
#[derive(Clone, Copy, PartialEq, Eq, Structural, Debug)]
pub enum IoError {
    NotFound,
    PermissionDenied,
    ReadFailed,
    WriteFailed,
    Other,
}

/// The underlying cause of a pipeline failure.
#[derive(Clone, Copy, PartialEq, Eq, Structural, Debug)]
pub enum Cause {
    Io(IoError),
    Codec(CodecError),
}

/// The reported result of a pipeline run: success with the number of
/// bytes written, or the failing stage with its cause.
#[derive(Clone, Copy, PartialEq, Eq, Structural, Debug)]
pub enum Outcome {
    Success(usize),
    Failed(Stage, Cause),
}

/// Where the pipeline stands. `AwaitingWrite` remembers how many bytes
/// the pending write carries, so that success can report them.
#[derive(Clone, Copy, PartialEq, Eq, Structural, Debug)]
pub enum PipelineState {
    Start,
    AwaitingRead,
    AwaitingWrite(usize),
    Done(usize),
    Failed(Stage, Cause),
}

/// What the caller must do next on the pipeline's behalf.
pub enum Action {
    /// Read the input file fully and feed back `Event::ReadResult`.
    DoRead,
    /// Write these bytes to the output file and feed back
    /// `Event::WriteResult`.
    DoWrite(Vec<u8>),
    /// The run is over; report the outcome.
    Stop,
}

/// What the caller feeds back into the pipeline.
pub enum Event {
    /// The run begins.
    Begin,
    /// The outcome of reading the input file.
    ReadResult(Result<Vec<u8>, IoError>),
    /// The outcome of writing the output file.
    WriteResult(Result<(), IoError>),
}

/// Resolves the two mutually exclusive flags into a mode: exactly one
/// must be set; both or neither is a configuration error.
pub fn resolve_mode(compress_flag: bool, decompress_flag: bool) -> (r: Result<Mode, ConfigError>)
    ensures
        compress_flag && !decompress_flag ==> r == Ok::<Mode, ConfigError>(Mode::Compress),
        !compress_flag && decompress_flag ==> r == Ok::<Mode, ConfigError>(Mode::Decompress),
        compress_flag && decompress_flag ==> r == Err::<Mode, ConfigError>(ConfigError::BothModes),
        !compress_flag && !decompress_flag ==> r == Err::<Mode, ConfigError>(ConfigError::NeitherMode),
{
    if compress_flag && decompress_flag {
        Err(ConfigError::BothModes)
    } else if compress_flag {
        Ok(Mode::Compress)
    } else if decompress_flag {
        Ok(Mode::Decompress)
    } else {
        Err(ConfigError::NeitherMode)
    }
}

/// Advances the pipeline by one event and says what the caller must do
/// next. Every failure is terminal: the state records the failing stage
/// and its cause, and the action is `Stop`, so no further I/O is asked
/// for. An event that does not belong to the current state leaves the
/// state unchanged and stops.
pub fn step(mode: Mode, state: PipelineState, event: Event) -> (r: (PipelineState, Action))
    ensures
        match (state, event) {
            (PipelineState::Start, Event::Begin) => {
                r.0 == PipelineState::AwaitingRead && r.1 is DoRead
            },
            (PipelineState::AwaitingRead, Event::ReadResult(res)) => match res {
                Err(e) => r.0 == PipelineState::Failed(Stage::Reading, Cause::Io(e))
                    && r.1 is Stop,
                Ok(data) => match mode {
                    Mode::Compress => {
                        &&& r.1 is DoWrite || r.1 is Stop
                        &&& (r.1 matches Action::DoWrite(buf) ==> buf@ == gzip_frame(data@)
                            && gunzip(buf@) == Some(data@)
                            && r.0 == PipelineState::AwaitingWrite(buf.len() as usize))
                        &&& (r.1 is Stop ==> r.0 == PipelineState::Failed(
                            Stage::Transforming,
                            Cause::Codec(CodecError::EncodeFailed),
                        ))
                    },
                    Mode::Decompress => {
                        &&& (gunzip(data@) matches Some(p) ==> r.1 matches Action::DoWrite(buf)
                            && buf@ == p
                            && r.0 == PipelineState::AwaitingWrite(buf.len() as usize))
                        &&& (gunzip(data@) is None ==> r.0 == PipelineState::Failed(
                            Stage::Transforming,
                            Cause::Codec(CodecError::InvalidFormat),
                        ) && r.1 is Stop)
                    },
                },
            },
            (PipelineState::AwaitingWrite(nb), Event::WriteResult(res)) => match res {
                Ok(_) => r.0 == PipelineState::Done(nb) && r.1 is Stop,
                Err(e) => r.0 == PipelineState::Failed(Stage::Writing, Cause::Io(e))
                    && r.1 is Stop,
            },
            _ => r.0 == state && r.1 is Stop,
        },
{
    match (state, event) {
        (PipelineState::Start, Event::Begin) => (PipelineState::AwaitingRead, Action::DoRead),
        (PipelineState::AwaitingRead, Event::ReadResult(res)) => match res {
            Err(e) => (PipelineState::Failed(Stage::Reading, Cause::Io(e)), Action::Stop),
            Ok(data) => {
                let transformed = match mode {
                    Mode::Compress => compress(data.as_slice()),
                    Mode::Decompress => decompress(data.as_slice()),
                };
                match transformed {
                    Ok(buf) => {
                        let nb = buf.len();
                        (PipelineState::AwaitingWrite(nb), Action::DoWrite(buf))
                    },
                    Err(e) => (
                        PipelineState::Failed(Stage::Transforming, Cause::Codec(e)),
                        Action::Stop,
                    ),
                }
            },
        },
        (PipelineState::AwaitingWrite(nb), Event::WriteResult(res)) => match res {
            Ok(_) => (PipelineState::Done(nb), Action::Stop),
            Err(e) => (PipelineState::Failed(Stage::Writing, Cause::Io(e)), Action::Stop),
        },
        (s, _) => (s, Action::Stop),
    }
}

/// The outcome a finished pipeline reports: success with the bytes
/// written, or the failing stage and cause. Nothing yet while the
/// pipeline is still under way.
pub fn outcome_of(state: PipelineState) -> (r: Option<Outcome>)
    ensures
        match state {
            PipelineState::Done(n) => r == Some(Outcome::Success(n)),
            PipelineState::Failed(st, c) => r == Some(Outcome::Failed(st, c)),
            _ => r is None,
        },
{
    match state {
        PipelineState::Done(n) => Some(Outcome::Success(n)),
        PipelineState::Failed(st, c) => Some(Outcome::Failed(st, c)),
        _ => None,
    }
}

} // verus!
