//! The course of processing one file: what is done to it, in which order,
//! and what comes of it.
//!
//! The work itself (copying a backup, running an encoder) is the caller's.
//! The caller asks [`begin_processing`] for the first step, performs it, and
//! hands the outcome to [`after_backup`] or [`after_gain`].

use vstd::prelude::*;
use vstd::string::StringExecFns;
use crate::analyzer::{AudioAnalysis, GainMethod};
use crate::scanner::{lowercase, lowercase_of};

verus! {

/// Bitrate in kbps for a re-encode of a file whose bitrate is unknown.
pub const DEFAULT_REENCODE_BITRATE: u32 = 320;

/// Outcome of processing one file.
#[derive(Debug, Clone)]
pub struct ProcessResult {
    pub success: bool,
    pub error: Option<String>,
}

impl View for ProcessResult {
    type V = (bool, Option<Seq<char>>);

    open spec fn view(&self) -> (bool, Option<Seq<char>>) {
        (
            self.success,
            match self.error {
                Some(message) => Some(message@),
                None => None,
            },
        )
    }
}

/// The tool that applies the gain of a method.
#[derive(Debug, Clone, Copy, PartialEq, Eq, Structural)]
pub enum GainAction {
    /// The ffmpeg volume filter, writing the file's own lossless format.
    Ffmpeg,
    /// Lossless MP3 gain in whole steps.
    Mp3Native,
    /// A re-encode of an MP3 file.
    Mp3Reencode,
    /// Nothing to run.
    Nothing,
}

/// What the caller does next with a file.
#[derive(Debug, Clone)]
pub enum ProcessStep {
    /// Processing is over, with this outcome.
    Done(ProcessResult),
    /// Copy the file to the backup directory.
    Backup,
    /// Apply the gain with this tool.
    Apply(GainAction),
}

impl ProcessStep {
    /// The outcome that ends processing, where the step is the last one.
    pub open spec fn outcome(self) -> Option<(bool, Option<Seq<char>>)> {
        match self {
            ProcessStep::Done(result) => Some(result@),
            _ => None,
        }
    }
}

/// The tool for a method. There is none for files without headroom, nor for
/// AAC files.
pub open spec fn action_for(method: GainMethod) -> GainAction {
    match method {
        GainMethod::FfmpegLossless => GainAction::Ffmpeg,
        GainMethod::Mp3Lossless => GainAction::Mp3Native,
        GainMethod::Mp3Reencode => GainAction::Mp3Reencode,
        GainMethod::AacReencode => GainAction::Nothing,
        GainMethod::NoGain => GainAction::Nothing,
    }
}

/// A file is left alone where it has no headroom, and where it would need a
/// re-encode that the run does not allow.
pub open spec fn is_skipped(method: GainMethod, allow_reencode: bool) -> bool {
    method == GainMethod::NoGain || (method.is_reencode() && !allow_reencode)
}

/// The outcome of a file that was processed, or left alone, without error.
pub fn succeeded() -> (result: ProcessResult)
    ensures
        result@ == (true, None::<Seq<char>>),
{
    ProcessResult { success: true, error: None }
}

/// The outcome of a file whose step failed: the step's name and the error.
fn failed(what: &'static str, message: &str) -> (result: ProcessResult)
    ensures
        result@ == (false, Some(what@ + message@)),
{
    ProcessResult { success: false, error: Some(String::from_str(what).concat(message)) }
}

/// Picks the tool that applies the gain of a method; see [`action_for`].
pub fn gain_action(method: GainMethod) -> (action: GainAction)
    ensures
        action == action_for(method),
{
    match method {
        GainMethod::FfmpegLossless => GainAction::Ffmpeg,
        GainMethod::Mp3Lossless => GainAction::Mp3Native,
        GainMethod::Mp3Reencode => GainAction::Mp3Reencode,
        GainMethod::AacReencode => GainAction::Nothing,
        GainMethod::NoGain => GainAction::Nothing,
    }
}

/// The first step for a file: done at once where the file is skipped, a
/// backup where one is wanted, and the gain itself otherwise.
pub fn begin_processing(analysis: &AudioAnalysis, wants_backup: bool, allow_reencode: bool) -> (step:
    ProcessStep)
    ensures
        is_skipped(analysis.gain_method, allow_reencode) ==> step.outcome() == Some(
            (true, None::<Seq<char>>),
        ),
        !is_skipped(analysis.gain_method, allow_reencode) && wants_backup ==> step is Backup,
        !is_skipped(analysis.gain_method, allow_reencode) && !wants_backup ==> step
            == ProcessStep::Apply(action_for(analysis.gain_method)),
{
    if !analysis.has_headroom() {
        return ProcessStep::Done(succeeded());
    }
    if analysis.requires_reencode() && !allow_reencode {
        return ProcessStep::Done(succeeded());
    }
    if wants_backup {
        ProcessStep::Backup
    } else {
        ProcessStep::Apply(gain_action(analysis.gain_method))
    }
}

/// The step after the backup: the gain where the backup was made, and the
/// end of processing, with the error, where it failed.
pub fn after_backup(analysis: &AudioAnalysis, backup: Result<(), String>) -> (step: ProcessStep)
    ensures
        backup is Ok ==> step == ProcessStep::Apply(action_for(analysis.gain_method)),
        backup matches Err(message) ==> step.outcome() == Some(
            (false, Some("Backup failed: "@ + message@)),
        ),
{
    match backup {
        Ok(_) => ProcessStep::Apply(gain_action(analysis.gain_method)),
        Err(message) => ProcessStep::Done(failed("Backup failed: ", message.as_str())),
    }
}

/// The outcome of a file once the gain was applied or failed to apply.
pub fn after_gain(gain: Result<(), String>) -> (result: ProcessResult)
    ensures
        gain is Ok ==> result@ == (true, None::<Seq<char>>),
        gain matches Err(message) ==> result@ == (false, Some("Gain adjustment failed: "@ + message@)),
{
    match gain {
        Ok(_) => succeeded(),
        Err(message) => failed("Gain adjustment failed: ", message.as_str()),
    }
}

/// The audio codec that ffmpeg writes for a lossless file whose extension,
/// in lowercase, is `lower`: FLAC for `flac`, 24-bit big-endian PCM for `aiff`
/// and `aif`, 24-bit little-endian PCM for `wav`. For any other extension
/// ffmpeg is left to choose.
pub open spec fn codec_for(lower: Seq<char>) -> Option<Seq<char>> {
    if lower == "flac"@ {
        Some("flac"@)
    } else if lower == "aiff"@ || lower == "aif"@ {
        Some("pcm_s24be"@)
    } else if lower == "wav"@ {
        Some("pcm_s24le"@)
    } else {
        None
    }
}

/// Picks the codec for an extension that is in lowercase already; see
/// [`codec_for`].
pub fn codec_of_lowercase(lower: &str) -> (codec: Option<&'static str>)
    ensures
        match codec {
            Some(name) => codec_for(lower@) == Some(name@),
            None => codec_for(lower@) is None,
        },
{
    let lower = String::from_str(lower);
    if lower == String::from_str("flac") {
        Some("flac")
    } else if lower == String::from_str("aiff") || lower == String::from_str("aif") {
        Some("pcm_s24be")
    } else if lower == String::from_str("wav") {
        Some("pcm_s24le")
    } else {
        None
    }
}

/// Picks the codec for a lossless file by its extension, whatever its letter
/// case; see [`codec_for`].
pub fn lossless_codec(extension: &str) -> (codec: Option<&'static str>)
    ensures
        match codec {
            Some(name) => codec_for(lowercase_of(extension@)) == Some(name@),
            None => codec_for(lowercase_of(extension@)) is None,
        },
{
    let lower = lowercase(extension);
    codec_of_lowercase(lower.as_str())
}

/// The bitrate in kbps of a re-encode: that of the file where it is known,
/// and 320 otherwise.
pub fn reencode_bitrate(bitrate_kbps: Option<u32>) -> (kbps: u32)
    ensures
        kbps == match bitrate_kbps {
            Some(known) => known,
            None => DEFAULT_REENCODE_BITRATE,
        },
{
    match bitrate_kbps {
        Some(known) => known,
        None => DEFAULT_REENCODE_BITRATE,
    }
}

} // verus!
