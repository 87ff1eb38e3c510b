//! Verdicts of the loudness analysis: how much gain a file can take, and by
//! which method it is applied.
//!
//! The levels themselves are measured outside this crate. What is decided
//! here works on plain facts about a file: its format, its bitrate, whether
//! the measured headroom is worth using, and how many whole gain steps fit.

use vstd::prelude::*;

verus! {

/// Bitrate in kbps from which a lossy file is held to the high-quality ceiling.
pub const HIGH_BITRATE_THRESHOLD: u32 = 256;

/// Processing method for a file.
#[derive(Debug, Clone, Copy, PartialEq, Eq, Structural)]
pub enum GainMethod {
    /// Lossless files processed with the ffmpeg volume filter.
    FfmpegLossless,
    /// MP3 files with enough headroom for lossless gain in 1.5 dB steps.
    Mp3Lossless,
    /// MP3 files that need a re-encode for precise gain.
    Mp3Reencode,
    /// AAC/M4A files, which always need a re-encode.
    AacReencode,
    /// No processing needed: no headroom.
    NoGain,
}

impl GainMethod {
    /// The method changes a file without re-encoding it.
    pub open spec fn is_lossless(self) -> bool {
        self == GainMethod::FfmpegLossless || self == GainMethod::Mp3Lossless
    }

    /// The method re-encodes a file.
    pub open spec fn is_reencode(self) -> bool {
        self == GainMethod::Mp3Reencode || self == GainMethod::AacReencode
    }
}

/// True-peak ceiling that a file is measured against.
#[derive(Debug, Clone, Copy, PartialEq, Eq, Structural)]
pub enum TruePeakCeiling {
    /// -0.5 dBTP: lossless files, and lossy files of 256 kbps or more.
    HighQuality,
    /// -1.0 dBTP: lossy files of a lower or an unknown bitrate.
    LowBitrate,
}

impl TruePeakCeiling {
    /// The ceiling in tenths of a dB relative to full scale.
    pub open spec fn tenths(self) -> int {
        match self {
            TruePeakCeiling::HighQuality => -5,
            TruePeakCeiling::LowBitrate => -10,
        }
    }

    /// The ceiling in tenths of a dB relative to full scale: -5 or -10.
    pub fn tenths_of_db(&self) -> (tenths: i32)
        ensures
            tenths == self.tenths(),
    {
        match self {
            TruePeakCeiling::HighQuality => -5,
            TruePeakCeiling::LowBitrate => -10,
        }
    }
}

/// What the analysis of one file came to, as far as decisions depend on it.
#[derive(Debug, Clone)]
pub struct AudioAnalysis {
    pub filename: String,
    pub is_mp3: bool,
    pub is_aac: bool,
    /// Bitrate in kbps, for lossy files where it is known.
    pub bitrate_kbps: Option<u32>,
    /// How this file should be processed.
    pub gain_method: GainMethod,
    /// For lossless MP3 gain: the number of 1.5 dB steps to apply.
    pub mp3_gain_steps: i32,
}

impl AudioAnalysis {
    /// Returns true if this file can be processed with lossless methods.
    pub fn can_lossless_process(&self) -> (lossless: bool)
        ensures
            lossless == self.gain_method.is_lossless(),
    {
        matches!(self.gain_method, GainMethod::FfmpegLossless | GainMethod::Mp3Lossless)
    }

    /// Returns true if this file requires re-encoding.
    pub fn requires_reencode(&self) -> (reencode: bool)
        ensures
            reencode == self.gain_method.is_reencode(),
    {
        matches!(self.gain_method, GainMethod::Mp3Reencode | GainMethod::AacReencode)
    }

    /// Returns true if this file has any available headroom.
    pub fn has_headroom(&self) -> (headroom: bool)
        ensures
            headroom == (self.gain_method != GainMethod::NoGain),
    {
        !matches!(self.gain_method, GainMethod::NoGain)
    }
}

/// The ceiling for a file of the given kind: the high-quality ceiling for
/// lossless files and for lossy files of 256 kbps or more, the low-bitrate
/// ceiling for every other lossy file.
pub open spec fn ceiling_for(is_lossy: bool, bitrate_kbps: Option<u32>) -> TruePeakCeiling {
    if !is_lossy {
        TruePeakCeiling::HighQuality
    } else if bitrate_kbps matches Some(kbps) && kbps >= HIGH_BITRATE_THRESHOLD {
        TruePeakCeiling::HighQuality
    } else {
        TruePeakCeiling::LowBitrate
    }
}

/// Picks the true-peak ceiling for a file.
pub fn get_target_true_peak(is_lossy: bool, bitrate_kbps: Option<u32>) -> (ceiling: TruePeakCeiling)
    ensures
        ceiling == ceiling_for(is_lossy, bitrate_kbps),
{
    if !is_lossy {
        return TruePeakCeiling::HighQuality;
    }
    match bitrate_kbps {
        Some(kbps) => {
            if kbps >= HIGH_BITRATE_THRESHOLD {
                TruePeakCeiling::HighQuality
            } else {
                TruePeakCeiling::LowBitrate
            }
        },
        None => TruePeakCeiling::LowBitrate,
    }
}

/// The method for a file, and the number of lossless MP3 steps that goes
/// with it.
///
/// `enough_headroom` says that the headroom to the ceiling is worth using;
/// `lossless_steps` is the number of whole 1.5 dB steps that fit under the
/// ceiling of an MP3 file. AAC files are re-encoded and files that are
/// neither MP3 nor AAC go through ffmpeg, both only with enough headroom. An
/// MP3 file takes lossless gain where at least one step fits, a re-encode
/// where none fits but the headroom is enough, and nothing otherwise.
pub open spec fn method_for(
    is_mp3: bool,
    is_aac: bool,
    enough_headroom: bool,
    lossless_steps: i32,
) -> (GainMethod, i32) {
    if is_aac {
        if enough_headroom {
            (GainMethod::AacReencode, 0i32)
        } else {
            (GainMethod::NoGain, 0i32)
        }
    } else if !is_mp3 {
        if enough_headroom {
            (GainMethod::FfmpegLossless, 0i32)
        } else {
            (GainMethod::NoGain, 0i32)
        }
    } else if lossless_steps >= 1 {
        (GainMethod::Mp3Lossless, lossless_steps)
    } else if enough_headroom {
        (GainMethod::Mp3Reencode, 0i32)
    } else {
        (GainMethod::NoGain, 0i32)
    }
}

/// Decides how a file is processed; see [`method_for`].
pub fn select_gain_method(is_mp3: bool, is_aac: bool, enough_headroom: bool, lossless_steps: i32) -> (chosen:
    (GainMethod, i32))
    ensures
        chosen == method_for(is_mp3, is_aac, enough_headroom, lossless_steps),
        chosen.0 == GainMethod::Mp3Lossless <==> chosen.1 >= 1,
{
    if is_aac {
        if enough_headroom {
            (GainMethod::AacReencode, 0)
        } else {
            (GainMethod::NoGain, 0)
        }
    } else if !is_mp3 {
        if enough_headroom {
            (GainMethod::FfmpegLossless, 0)
        } else {
            (GainMethod::NoGain, 0)
        }
    } else {
        if lossless_steps >= 1 {
            (GainMethod::Mp3Lossless, lossless_steps)
        } else if enough_headroom {
            (GainMethod::Mp3Reencode, 0)
        } else {
            (GainMethod::NoGain, 0)
        }
    }
}

/// Whether a file with this method is processed in a run that does or does
/// not allow re-encoding: lossless methods always, re-encodes only when
/// allowed, and files without headroom never.
pub fn selected_for_processing(method: GainMethod, allow_reencode: bool) -> (selected: bool)
    ensures
        selected == (method.is_lossless() || (method.is_reencode() && allow_reencode)),
{
    match method {
        GainMethod::FfmpegLossless => true,
        GainMethod::Mp3Lossless => true,
        GainMethod::Mp3Reencode => allow_reencode,
        GainMethod::AacReencode => allow_reencode,
        GainMethod::NoGain => false,
    }
}

} // verus!
