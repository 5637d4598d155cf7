//! Decoding audio to raw PCM with a decoder process: how the decoder is
//! invoked, in which order its pipes are served, and how its outcome is judged.
//!
//! The process itself is run by the caller. This module decides what is
//! done next and what the caller gets in the end.

use vstd::prelude::*;
use vstd::string::*;

verus! {

/// Why a transcoding failed.
#[derive(Debug)]
pub enum TranscodeError {
    /// The decoder could not be started.
    SpawnFailed { reason: String },
    /// Its input pipe broke before all bytes were written.
    WriteFailed { reason: String },
    /// Its output could not be collected.
    ReadFailed { reason: String },
    /// It exited without success; `diagnostics` holds what it reported.
    DecodeFailed { diagnostics: String },
}

/// What a decoder that has exited leaves behind.
#[derive(Debug)]
pub struct DecoderOutput {
    pub success: bool,
    pub status: String,
    pub stdout: Vec<u8>,
    pub stderr: String,
}

/// Where a transcoding stands.
#[derive(Debug, Clone, Copy, PartialEq, Eq, Structural)]
pub enum TranscodeStage {
    Spawned,
    WritingInput,
    DrainingOutput,
    Exited,
}

/// What happened to the decoder since the last step.
#[derive(Debug)]
pub enum TranscodeEvent {
    /// The caller is ready to serve the pipes.
    Started,
    /// All input bytes were written, in order, and the input pipe was closed.
    InputWritten,
    /// Writing the input failed.
    WriteFailed { reason: String },
    /// The decoder exited and its output was collected.
    OutputCollected { output: DecoderOutput },
    /// Collecting the output failed.
    ReadFailed { reason: String },
}

/// What the caller does next.
#[derive(Debug)]
pub enum TranscodeAction {
    /// Write the whole input to the decoder, in order, then close the pipe,
    /// while its output is being drained.
    WriteInput,
    /// Wait for the decoder to exit and collect what it wrote.
    CollectOutput,
    /// Hand the result to whoever asked.
    Finish { result: Result<Vec<u8>, TranscodeError> },
    /// The event does not belong to this stage: nothing is done.
    Ignore,
}

/// The decoder's arguments: input of any format from standard input; output
/// as signed 16-bit little-endian samples, one channel, 48 kHz, without a
/// container, to standard output.
pub open spec fn decoder_argument_list() -> Seq<Seq<char>> {
    seq![
        "-i"@,
        "-"@,
        "-f"@,
        "s16le"@,
        "-ac"@,
        "1"@,
        "-ar"@,
        "48000"@,
        "-acodec"@,
        "pcm_s16le"@,
        "-"@,
    ]
}

/// The report of a decoder that exited without success.
pub open spec fn diagnostics_text(status: Seq<char>, stderr: Seq<char>) -> Seq<char> {
    "ffmpeg exited with code "@ + status + ":\n"@ + stderr
}

/// The result of a transcoding whose decoder has exited: its output where it
/// succeeded, its report where it did not.
pub open spec fn judged(output: DecoderOutput, result: Result<Vec<u8>, TranscodeError>) -> bool {
    if output.success {
        result == Ok::<Vec<u8>, TranscodeError>(output.stdout)
    } else {
        match result {
            Err(TranscodeError::DecodeFailed { diagnostics }) => diagnostics@ == diagnostics_text(
                output.status@,
                output.stderr@,
            ),
            _ => false,
        }
    }
}

/// The stage that follows `stage` on `event`.
pub open spec fn next_stage(stage: TranscodeStage, event: TranscodeEvent) -> TranscodeStage {
    match (stage, event) {
        (TranscodeStage::Spawned, TranscodeEvent::Started) => TranscodeStage::WritingInput,
        (TranscodeStage::WritingInput, TranscodeEvent::InputWritten) => TranscodeStage::DrainingOutput,
        (TranscodeStage::WritingInput, TranscodeEvent::WriteFailed { .. }) => TranscodeStage::Exited,
        (TranscodeStage::DrainingOutput, TranscodeEvent::OutputCollected { .. }) => TranscodeStage::Exited,
        (TranscodeStage::DrainingOutput, TranscodeEvent::ReadFailed { .. }) => TranscodeStage::Exited,
        _ => stage,
    }
}

/// `action` is what `event` asks for at `stage`.
pub open spec fn action_fits(
    stage: TranscodeStage,
    event: TranscodeEvent,
    action: TranscodeAction,
) -> bool {
    match (stage, event) {
        (TranscodeStage::Spawned, TranscodeEvent::Started) => action is WriteInput,
        (TranscodeStage::WritingInput, TranscodeEvent::InputWritten) => action is CollectOutput,
        (TranscodeStage::WritingInput, TranscodeEvent::WriteFailed { reason }) => action
            == (TranscodeAction::Finish {
            result: Err(TranscodeError::WriteFailed { reason }),
        }),
        (TranscodeStage::DrainingOutput, TranscodeEvent::OutputCollected { output }) => {
            &&& action is Finish
            &&& judged(output, action->result)
        },
        (TranscodeStage::DrainingOutput, TranscodeEvent::ReadFailed { reason }) => action
            == (TranscodeAction::Finish {
            result: Err(TranscodeError::ReadFailed { reason }),
        }),
        _ => action is Ignore,
    }
}

/// A decoder's report is never empty.
pub proof fn lemma_diagnostics_not_empty(status: Seq<char>, stderr: Seq<char>)
    ensures
        diagnostics_text(status, stderr).len() >= 26,
{
    reveal_strlit("ffmpeg exited with code ");
    reveal_strlit(":\n");
}

/// The name of the decoder's program.
pub fn decoder_program() -> (res: &'static str)
    ensures
        res@ == "ffmpeg"@,
{
    "ffmpeg"
}

/// The arguments with which the decoder is started.
pub fn decoder_arguments() -> (res: Vec<String>)
    ensures
        res@.len() == decoder_argument_list().len(),
        forall|i: int| 0 <= i < res@.len() ==> (#[trigger] res@[i])@ == decoder_argument_list()[i],
{
    let mut arguments: Vec<String> = Vec::new();
    arguments.push(String::from_str("-i"));
    arguments.push(String::from_str("-"));
    arguments.push(String::from_str("-f"));
    arguments.push(String::from_str("s16le"));
    arguments.push(String::from_str("-ac"));
    arguments.push(String::from_str("1"));
    arguments.push(String::from_str("-ar"));
    arguments.push(String::from_str("48000"));
    arguments.push(String::from_str("-acodec"));
    arguments.push(String::from_str("pcm_s16le"));
    arguments.push(String::from_str("-"));
    arguments
}

/// The stage in which a transcoding begins, or the failure to start the decoder.
pub fn begin(spawned: Result<(), String>) -> (res: Result<TranscodeStage, TranscodeError>)
    ensures
        match spawned {
            Ok(_) => res == Ok::<TranscodeStage, TranscodeError>(TranscodeStage::Spawned),
            Err(reason) => res == Err::<TranscodeStage, TranscodeError>(
                TranscodeError::SpawnFailed { reason },
            ),
        },
{
    match spawned {
        Ok(_) => Ok(TranscodeStage::Spawned),
        Err(reason) => Err(TranscodeError::SpawnFailed { reason }),
    }
}

/// Judges a decoder that has exited: a success gives its output, anything
/// else its report with what it wrote to standard error.
pub fn conclude(output: DecoderOutput) -> (res: Result<Vec<u8>, TranscodeError>)
    ensures
        judged(output, res),
        res is Ok <==> output.success,
        res matches Err(TranscodeError::DecodeFailed { diagnostics }) ==> diagnostics@.len() > 0,
{
    if output.success {
        Ok(output.stdout)
    } else {
        let mut diagnostics = String::from_str("ffmpeg exited with code ");
        diagnostics.append(output.status.as_str());
        diagnostics.append(":\n");
        diagnostics.append(output.stderr.as_str());
        proof {
            lemma_diagnostics_not_empty(output.status@, output.stderr@);
        }
        Err(TranscodeError::DecodeFailed { diagnostics })
    }
}

/// One step of a transcoding: the next stage and what the caller does next.
pub fn step(stage: TranscodeStage, event: TranscodeEvent) -> (res: (
    TranscodeStage,
    TranscodeAction,
))
    ensures
        res.0 == next_stage(stage, event),
        action_fits(stage, event, res.1),
        res.1 is Finish <==> res.0 == TranscodeStage::Exited && stage != TranscodeStage::Exited,
{
    match stage {
        TranscodeStage::Spawned => match event {
            TranscodeEvent::Started => (TranscodeStage::WritingInput, TranscodeAction::WriteInput),
            _ => (stage, TranscodeAction::Ignore),
        },
        TranscodeStage::WritingInput => match event {
            TranscodeEvent::InputWritten => (
                TranscodeStage::DrainingOutput,
                TranscodeAction::CollectOutput,
            ),
            TranscodeEvent::WriteFailed { reason } => (
                TranscodeStage::Exited,
                TranscodeAction::Finish { result: Err(TranscodeError::WriteFailed { reason }) },
            ),
            _ => (stage, TranscodeAction::Ignore),
        },
        TranscodeStage::DrainingOutput => match event {
            TranscodeEvent::OutputCollected { output } => (
                TranscodeStage::Exited,
                TranscodeAction::Finish { result: conclude(output) },
            ),
            TranscodeEvent::ReadFailed { reason } => (
                TranscodeStage::Exited,
                TranscodeAction::Finish { result: Err(TranscodeError::ReadFailed { reason }) },
            ),
            _ => (stage, TranscodeAction::Ignore),
        },
        TranscodeStage::Exited => (stage, TranscodeAction::Ignore),
    }
}

} // verus!
