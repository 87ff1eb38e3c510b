//! What a report says of the analysed files: counts by method, and the
//! labels and column layout of the table.

use vstd::prelude::*;
use vstd::string::StrSliceExecFns;
use vstd::string::StringExecFns;
use crate::analyzer::{AudioAnalysis, GainMethod};

verus! {

/// Narrowest width of the filename column, in characters.
pub const MIN_FILENAME_WIDTH: usize = 8;

/// Widest width of the filename column, in characters.
pub const MAX_FILENAME_WIDTH: usize = 40;

/// The number of analyses that came to the given method.
pub open spec fn count_method(analyses: Seq<AudioAnalysis>, method: GainMethod) -> nat
    decreases analyses.len(),
{
    if analyses.len() == 0 {
        0
    } else {
        count_method(analyses.drop_last(), method) + if analyses.last().gain_method == method {
            1nat
        } else {
            0nat
        }
    }
}

/// The counts of the five methods add up to the number of analyses.
pub proof fn lemma_counts_add_up(analyses: Seq<AudioAnalysis>)
    ensures
        count_method(analyses, GainMethod::FfmpegLossless) + count_method(
            analyses,
            GainMethod::Mp3Lossless,
        ) + count_method(analyses, GainMethod::Mp3Reencode) + count_method(
            analyses,
            GainMethod::AacReencode,
        ) + count_method(analyses, GainMethod::NoGain) == analyses.len(),
    decreases analyses.len(),
{
    if analyses.len() > 0 {
        lemma_counts_add_up(analyses.drop_last());
    }
}

/// Summary counts for display.
#[derive(Debug, Clone, Copy, PartialEq, Eq, Structural)]
pub struct AnalysisSummary {
    pub lossless_count: usize,
    pub mp3_lossless_count: usize,
    pub mp3_reencode_count: usize,
    pub aac_reencode_count: usize,
}

impl AnalysisSummary {
    /// The number of files counted, whatever their method.
    pub open spec fn sum(self) -> int {
        self.lossless_count + self.mp3_lossless_count + self.mp3_reencode_count
            + self.aac_reencode_count
    }

    /// The counts are those of files of one list: their sum is a length.
    pub open spec fn wf(self) -> bool {
        self.sum() <= usize::MAX
    }

    /// Counts the analyses by method. Files without headroom are not counted.
    pub fn from_analyses(analyses: &[AudioAnalysis]) -> (summary: Self)
        ensures
            summary.wf(),
            summary.lossless_count == count_method(analyses@, GainMethod::FfmpegLossless),
            summary.mp3_lossless_count == count_method(analyses@, GainMethod::Mp3Lossless),
            summary.mp3_reencode_count == count_method(analyses@, GainMethod::Mp3Reencode),
            summary.aac_reencode_count == count_method(analyses@, GainMethod::AacReencode),
            summary.sum() + count_method(analyses@, GainMethod::NoGain) == analyses@.len(),
    {
        let mut summary = AnalysisSummary {
            lossless_count: 0,
            mp3_lossless_count: 0,
            mp3_reencode_count: 0,
            aac_reencode_count: 0,
        };
        let mut i: usize = 0;
        while i < analyses.len()
            invariant
                i <= analyses@.len(),
                summary.lossless_count == count_method(
                    analyses@.take(i as int),
                    GainMethod::FfmpegLossless,
                ),
                summary.mp3_lossless_count == count_method(
                    analyses@.take(i as int),
                    GainMethod::Mp3Lossless,
                ),
                summary.mp3_reencode_count == count_method(
                    analyses@.take(i as int),
                    GainMethod::Mp3Reencode,
                ),
                summary.aac_reencode_count == count_method(
                    analyses@.take(i as int),
                    GainMethod::AacReencode,
                ),
            decreases analyses@.len() - i,
        {
            proof {
                let next = analyses@.take(i + 1);
                assert(next.drop_last() =~= analyses@.take(i as int));
                assert(next.last() == analyses@[i as int]);
                lemma_counts_add_up(next);
            }
            match analyses[i].gain_method {
                GainMethod::FfmpegLossless => {
                    summary.lossless_count += 1;
                },
                GainMethod::Mp3Lossless => {
                    summary.mp3_lossless_count += 1;
                },
                GainMethod::Mp3Reencode => {
                    summary.mp3_reencode_count += 1;
                },
                GainMethod::AacReencode => {
                    summary.aac_reencode_count += 1;
                },
                GainMethod::NoGain => {},
            }
            i += 1;
        }
        proof {
            assert(analyses@.take(i as int) =~= analyses@);
            lemma_counts_add_up(analyses@);
        }
        summary
    }

    /// Files that are processed without a re-encode.
    pub fn total_lossless(&self) -> (total: usize)
        requires
            self.wf(),
        ensures
            total == self.lossless_count + self.mp3_lossless_count,
    {
        self.lossless_count + self.mp3_lossless_count
    }

    /// Files that are processed by a re-encode.
    pub fn total_reencode(&self) -> (total: usize)
        requires
            self.wf(),
        ensures
            total == self.mp3_reencode_count + self.aac_reencode_count,
    {
        self.mp3_reencode_count + self.aac_reencode_count
    }

    /// All files that can be processed.
    pub fn total(&self) -> (total: usize)
        requires
            self.wf(),
        ensures
            total == self.sum(),
    {
        self.lossless_count + self.mp3_lossless_count + self.mp3_reencode_count
            + self.aac_reencode_count
    }

    /// Whether any file can be processed.
    pub fn has_processable(&self) -> (any: bool)
        requires
            self.wf(),
        ensures
            any == (self.sum() > 0),
    {
        self.total() > 0
    }
}

/// The name of the report file written at the given time, which the caller
/// hands over as text: `headroom_report_`, the timestamp, and `.csv`.
pub fn report_file_name(timestamp: &str) -> (name: String)
    ensures
        name@ == "headroom_report_"@ + timestamp@ + ".csv"@,
{
    String::from_str("headroom_report_").concat(timestamp).concat(".csv")
}

/// The format column of a report row.
pub fn format_label(is_mp3: bool, is_aac: bool) -> (label: &'static str)
    ensures
        label@ == if is_mp3 {
            "MP3"@
        } else if is_aac {
            "AAC"@
        } else {
            "Lossless"@
        },
{
    if is_mp3 {
        "MP3"
    } else if is_aac {
        "AAC"
    } else {
        "Lossless"
    }
}

/// The method column of a report row.
pub fn method_label(method: GainMethod) -> (label: &'static str)
    ensures
        label@ == match method {
            GainMethod::FfmpegLossless => "ffmpeg"@,
            GainMethod::Mp3Lossless => "native"@,
            GainMethod::Mp3Reencode => "re-encode"@,
            GainMethod::AacReencode => "re-encode"@,
            GainMethod::NoGain => "none"@,
        },
{
    match method {
        GainMethod::FfmpegLossless => "ffmpeg",
        GainMethod::Mp3Lossless => "native",
        GainMethod::Mp3Reencode => "re-encode",
        GainMethod::AacReencode => "re-encode",
        GainMethod::NoGain => "none",
    }
}

/// The longest filename, in characters, among the files with headroom; zero
/// where there is none.
pub open spec fn longest_filename(analyses: Seq<AudioAnalysis>) -> nat
    decreases analyses.len(),
{
    if analyses.len() == 0 {
        0
    } else {
        let before = longest_filename(analyses.drop_last());
        let last = analyses.last();
        if last.gain_method != GainMethod::NoGain && last.filename@.len() > before {
            last.filename@.len()
        } else {
            before
        }
    }
}

/// The width of the filename column for a table of these files: as wide as
/// the longest filename among the files with headroom, but no narrower than
/// 8 and no wider than 40 characters; 8 where no file has headroom.
/// Lengths count characters, not bytes.
pub open spec fn column_width(analyses: Seq<AudioAnalysis>) -> nat {
    let longest = longest_filename(analyses);
    if longest < MIN_FILENAME_WIDTH {
        MIN_FILENAME_WIDTH as nat
    } else if longest > MAX_FILENAME_WIDTH {
        MAX_FILENAME_WIDTH as nat
    } else {
        longest
    }
}

/// Computes the width of the filename column; see [`column_width`].
pub fn filename_width(analyses: &[AudioAnalysis]) -> (width: usize)
    ensures
        width == column_width(analyses@),
        MIN_FILENAME_WIDTH <= width <= MAX_FILENAME_WIDTH,
{
    let mut longest: usize = 0;
    let mut i: usize = 0;
    while i < analyses.len()
        invariant
            i <= analyses@.len(),
            longest == longest_filename(analyses@.take(i as int)),
        decreases analyses@.len() - i,
    {
        proof {
            let next = analyses@.take(i + 1);
            assert(next.drop_last() =~= analyses@.take(i as int));
            assert(next.last() == analyses@[i as int]);
        }
        if analyses[i].has_headroom() {
            let length = analyses[i].filename.as_str().unicode_len();
            if length > longest {
                longest = length;
            }
        }
        i += 1;
    }
    proof {
        assert(analyses@.take(i as int) =~= analyses@);
    }
    if longest < MIN_FILENAME_WIDTH {
        MIN_FILENAME_WIDTH
    } else if longest > MAX_FILENAME_WIDTH {
        MAX_FILENAME_WIDTH
    } else {
        longest
    }
}

/// The filename as a table of the given width shows it: whole where it
/// fits, and otherwise its first `width - 1` characters and an ellipsis.
pub fn display_name(filename: &str, width: usize) -> (shown: String)
    requires
        width >= 1,
    ensures
        shown@ == if filename@.len() > width {
            filename@.subrange(0, width - 1) + "…"@
        } else {
            filename@
        },
{
    let char_count = filename.unicode_len();
    if char_count > width {
        let truncated = filename.substring_char(0, width - 1);
        String::from_str(truncated).concat("…")
    } else {
        String::from_str(filename)
    }
}

} // verus!
