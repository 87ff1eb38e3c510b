//! Frame header parser: decodes the four header bytes of an MPEG audio frame.

use vstd::prelude::*;

verus! {

/// MPEG audio version.
#[derive(Debug, Clone, Copy, PartialEq, Eq, Structural)]
pub enum MpegVersion {
    Mpeg1,
    Mpeg2,
    Mpeg25,
}

/// Channel layout announced by a frame header.
#[derive(Debug, Clone, Copy, PartialEq, Eq, Structural)]
pub enum ChannelMode {
    Stereo,
    JointStereo,
    DualChannel,
    Mono,
}

/// The fields of a Layer III frame header, with the frame size they imply.
#[derive(Debug, Clone, Copy, PartialEq, Eq, Structural)]
pub struct FrameHeader {
    pub version: MpegVersion,
    pub layer: u8,
    /// A 16-bit CRC follows the header and pushes the side information back by two bytes.
    pub has_crc: bool,
    pub bitrate_kbps: u32,
    pub sample_rate: u32,
    pub padding: bool,
    pub channel_mode: ChannelMode,
    /// Length of the whole frame in bytes, header included.
    pub frame_size: usize,
}

/// Bitrates in kbps of MPEG1 Layer III, by bitrate index.
pub const BITRATE_TABLE_MPEG1_L3: [u32; 15] = [
    0, 32, 40, 48, 56, 64, 80, 96, 112, 128, 160, 192, 224, 256, 320,
];

/// Bitrates in kbps of MPEG2 and MPEG2.5 Layer III, by bitrate index.
pub const BITRATE_TABLE_MPEG2_L3: [u32; 15] = [
    0, 8, 16, 24, 32, 40, 48, 56, 64, 80, 96, 112, 128, 144, 160,
];

/// Sample rates in Hz, by version (MPEG1, MPEG2, MPEG2.5) and sample-rate index.
pub const SAMPLE_RATE_TABLE: [[u32; 3]; 3] = [
    [44100, 48000, 32000],
    [22050, 24000, 16000],
    [11025, 12000, 8000],
];

/// Smallest frame size that any accepted header implies.
pub const MIN_FRAME_SIZE: usize = 24;

/// Largest frame size that any accepted header implies.
pub const MAX_FRAME_SIZE: usize = 1441;

impl MpegVersion {
    /// Row of this version in the sample-rate table.
    pub open spec fn table_row(self) -> int {
        match self {
            MpegVersion::Mpeg1 => 0,
            MpegVersion::Mpeg2 => 1,
            MpegVersion::Mpeg25 => 2,
        }
    }

    /// Granules that one frame of this version holds.
    pub open spec fn granules(self) -> int {
        if self == MpegVersion::Mpeg1 {
            2
        } else {
            1
        }
    }
}

impl ChannelMode {
    /// Channels that each granule carries.
    pub open spec fn channels(self) -> int {
        if self == ChannelMode::Mono {
            1
        } else {
            2
        }
    }

    /// Channels that each granule carries: one for mono, two otherwise.
    pub fn channel_count(&self) -> (n: usize)
        ensures
            n == self.channels(),
    {
        match self {
            ChannelMode::Mono => 1,
            _ => 2,
        }
    }
}

/// The version that the two version bits of a header name; `None` for the reserved pattern.
pub open spec fn version_of(bits: int) -> Option<MpegVersion> {
    if bits == 0 {
        Some(MpegVersion::Mpeg25)
    } else if bits == 2 {
        Some(MpegVersion::Mpeg2)
    } else if bits == 3 {
        Some(MpegVersion::Mpeg1)
    } else {
        None
    }
}

/// The channel mode that the two mode bits of a header name.
pub open spec fn channel_mode_of(bits: int) -> ChannelMode {
    if bits == 0 {
        ChannelMode::Stereo
    } else if bits == 1 {
        ChannelMode::JointStereo
    } else if bits == 2 {
        ChannelMode::DualChannel
    } else {
        ChannelMode::Mono
    }
}

/// Bitrate in kbps that a bitrate index stands for in the given version.
pub open spec fn bitrate_of(version: MpegVersion, index: int) -> u32 {
    if version == MpegVersion::Mpeg1 {
        BITRATE_TABLE_MPEG1_L3@[index]
    } else {
        BITRATE_TABLE_MPEG2_L3@[index]
    }
}

/// Sample rate in Hz that a sample-rate index stands for in the given version.
pub open spec fn sample_rate_of(version: MpegVersion, index: int) -> u32 {
    SAMPLE_RATE_TABLE@[version.table_row()]@[index]
}

/// Frame length in bytes: `floor(samples * kbps * 125 / rate)`, plus one with
/// padding, where a frame holds 1152 samples in MPEG1 and 576 otherwise.
pub open spec fn frame_length(
    version: MpegVersion,
    bitrate_kbps: int,
    sample_rate: int,
    padding: bool,
) -> int {
    let scaled = if version == MpegVersion::Mpeg1 {
        1152 * bitrate_kbps * 125
    } else {
        576 * bitrate_kbps * 125
    };
    scaled / sample_rate + if padding {
        1int
    } else {
        0int
    }
}

/// The two version bits: bits 4 and 3 of the second header byte.
pub open spec fn version_bits(b1: u8) -> int {
    (b1 as int / 8) % 4
}

/// The two layer bits: bits 2 and 1 of the second header byte.
pub open spec fn layer_bits(b1: u8) -> int {
    (b1 as int / 2) % 4
}

/// The bitrate index: the high four bits of the third header byte.
pub open spec fn bitrate_index(b2: u8) -> int {
    b2 as int / 16
}

/// The sample-rate index: bits 3 and 2 of the third header byte.
pub open spec fn sample_rate_index(b2: u8) -> int {
    (b2 as int / 4) % 4
}

/// The 11-bit frame sync: a byte `0xFF` followed by a byte whose top three bits are set.
pub open spec fn is_sync(b0: u8, b1: u8) -> bool {
    b0 == 0xFF && b1 as int / 32 == 7
}

/// Whether `b` begins with the header of a Layer III frame: frame sync, a
/// version other than the reserved one, Layer III, a bitrate index from 1 to
/// 14 and a sample-rate index other than 3.
pub open spec fn is_frame_header(b: Seq<u8>) -> bool {
    &&& b.len() >= 4
    &&& is_sync(b[0], b[1])
    &&& version_bits(b[1]) != 1
    &&& layer_bits(b[1]) == 1
    &&& 1 <= bitrate_index(b[2]) <= 14
    &&& sample_rate_index(b[2]) != 3
}

/// The fields that the first four bytes of `b` encode, for `b` that
/// `is_frame_header` accepts.
pub open spec fn decode_header(b: Seq<u8>) -> FrameHeader {
    let version = version_of(version_bits(b[1])).unwrap();
    let bitrate_kbps = bitrate_of(version, bitrate_index(b[2]));
    let sample_rate = sample_rate_of(version, sample_rate_index(b[2]));
    let padding = (b[2] as int / 2) % 2 == 1;
    FrameHeader {
        version,
        layer: 3,
        has_crc: b[1] as int % 2 == 0,
        bitrate_kbps,
        sample_rate,
        padding,
        channel_mode: channel_mode_of(b[3] as int / 64),
        frame_size: frame_length(version, bitrate_kbps as int, sample_rate as int, padding) as usize,
    }
}

/// What parsing `b` as a frame header yields.
pub open spec fn header_of(b: Seq<u8>) -> Option<FrameHeader> {
    if is_frame_header(b) {
        Some(decode_header(b))
    } else {
        None
    }
}

impl FrameHeader {
    /// A header as the parser produces it: Layer III, a bitrate and a sample
    /// rate from the tables of its version, and the frame size that follows
    /// from them.
    pub open spec fn wf(self) -> bool {
        &&& self.layer == 3
        &&& exists|i: int| 1 <= i <= 14 && self.bitrate_kbps == #[trigger] bitrate_of(self.version, i)
        &&& exists|j: int| 0 <= j <= 2 && self.sample_rate == #[trigger] sample_rate_of(self.version, j)
        &&& self.frame_size == frame_length(
            self.version,
            self.bitrate_kbps as int,
            self.sample_rate as int,
            self.padding,
        )
    }

    /// Offset of the side information from the start of the frame.
    pub open spec fn side_info_start(self) -> int {
        if self.has_crc {
            6
        } else {
            4
        }
    }

    /// Number of granules per frame: two for MPEG1, one otherwise.
    pub fn granule_count(&self) -> (n: usize)
        ensures
            n == self.version.granules(),
    {
        match self.version {
            MpegVersion::Mpeg1 => 2,
            _ => 1,
        }
    }

    /// Offset from the frame start to the side information: past the four
    /// header bytes and, where there is one, the two bytes of the CRC.
    pub fn side_info_offset(&self) -> (n: usize)
        ensures
            n == self.side_info_start(),
    {
        if self.has_crc {
            6
        } else {
            4
        }
    }
}

/// The bit operations of the parser select the fields that the header layout names.
proof fn lemma_header_bits(b: u8)
    ensures
        (b & 0xE0) == 0xE0 <==> b as int / 32 == 7,
        ((b >> 3) & 0x03) as int == (b as int / 8) % 4,
        ((b >> 1) & 0x03) as int == (b as int / 2) % 4,
        (b & 0x01) == 0 <==> b as int % 2 == 0,
        ((b >> 4) & 0x0F) as int == b as int / 16,
        ((b >> 2) & 0x03) as int == (b as int / 4) % 4,
        (b & 0x02) != 0 <==> (b as int / 2) % 2 == 1,
        ((b >> 6) & 0x03) as int == b as int / 64,
{
    assert({
        &&& ((b & 0xE0) == 0xE0 <==> b / 32 == 7)
        &&& (b >> 3) & 0x03 == (b / 8) % 4
        &&& (b >> 1) & 0x03 == (b / 2) % 4
        &&& ((b & 0x01) == 0 <==> b % 2 == 0)
        &&& (b >> 4) & 0x0F == b / 16
        &&& (b >> 2) & 0x03 == (b / 4) % 4
        &&& ((b & 0x02) != 0 <==> (b / 2) % 2 == 1)
        &&& (b >> 6) & 0x03 == b / 64
    }) by (bit_vector);
}

/// Every frame size that the tables allow lies between 24 and 1441 bytes.
pub proof fn lemma_frame_length_bounds(
    version: MpegVersion,
    bitrate_index: int,
    sample_rate_index: int,
    padding: bool,
)
    requires
        1 <= bitrate_index <= 14,
        0 <= sample_rate_index <= 2,
    ensures
        MIN_FRAME_SIZE <= frame_length(
            version,
            bitrate_of(version, bitrate_index) as int,
            sample_rate_of(version, sample_rate_index) as int,
            padding,
        ) <= MAX_FRAME_SIZE,
        version == MpegVersion::Mpeg1 ==> 96 <= frame_length(
            version,
            bitrate_of(version, bitrate_index) as int,
            sample_rate_of(version, sample_rate_index) as int,
            padding,
        ),
{
    let kbps = bitrate_of(version, bitrate_index) as int;
    let rate = sample_rate_of(version, sample_rate_index) as int;
    match version {
        MpegVersion::Mpeg1 => {
            assert(32 <= kbps <= 320);
            assert(rate == 44100 || rate == 48000 || rate == 32000);
        },
        MpegVersion::Mpeg2 => {
            assert(8 <= kbps <= 160);
            assert(rate == 22050 || rate == 24000 || rate == 16000);
        },
        MpegVersion::Mpeg25 => {
            assert(8 <= kbps <= 160);
            assert(rate == 11025 || rate == 12000 || rate == 8000);
        },
    }
}

/// Whether two bytes form the frame sync: `0xFF`, then a byte whose top three
/// bits are set.
pub fn has_sync(b0: u8, b1: u8) -> (found: bool)
    ensures
        found == is_sync(b0, b1),
{
    proof {
        lemma_header_bits(b1);
    }
    b0 == 0xFF && (b1 & 0xE0) == 0xE0
}

/// Every header that the parser accepts is well formed, and its frame size
/// lies between 24 and 1441 bytes; an MPEG1 frame has at least 96.
pub proof fn lemma_header_of_wf(b: Seq<u8>)
    requires
        is_frame_header(b),
    ensures
        decode_header(b).wf(),
        MIN_FRAME_SIZE <= decode_header(b).frame_size <= MAX_FRAME_SIZE,
        decode_header(b).version == MpegVersion::Mpeg1 ==> 96 <= decode_header(b).frame_size,
{
    let h = decode_header(b);
    let i = bitrate_index(b[2]);
    let j = sample_rate_index(b[2]);
    lemma_frame_length_bounds(h.version, i, j, h.padding);
    assert(h.bitrate_kbps == bitrate_of(h.version, i));
    assert(h.sample_rate == sample_rate_of(h.version, j));
}

/// Parses a four-byte frame header.
///
/// Returns the decoded header when `header` starts with a frame sync
/// followed by valid Layer III fields, and `None` otherwise: for fewer than
/// four bytes, a missing sync, the reserved version, another layer, the
/// free or the bad bitrate index, or the reserved sample-rate index.
pub fn parse_header(header: &[u8]) -> (parsed: Option<FrameHeader>)
    ensures
        parsed == header_of(header@),
        parsed matches Some(h) ==> h.wf() && MIN_FRAME_SIZE <= h.frame_size <= MAX_FRAME_SIZE,
{
    proof {
        if is_frame_header(header@) {
            lemma_header_of_wf(header@);
        }
    }
    if header.len() < 4 {
        return None;
    }
    proof {
        lemma_header_bits(header[0]);
        lemma_header_bits(header[1]);
        lemma_header_bits(header[2]);
        lemma_header_bits(header[3]);
    }
    // Sync word: eleven set bits.
    if !has_sync(header[0], header[1]) {
        return None;
    }
    let version_bits: u8 = (header[1] >> 3) & 0x03;
    let version = match version_bits {
        0b00 => MpegVersion::Mpeg25,
        0b10 => MpegVersion::Mpeg2,
        0b11 => MpegVersion::Mpeg1,
        _ => {
            return None;
        },
    };
    let layer_bits: u8 = (header[1] >> 1) & 0x03;
    let layer: u8 = match layer_bits {
        0b01 => 3,
        0b10 => 2,
        0b11 => 1,
        _ => {
            return None;
        },
    };
    // Only Layer III carries the side information this crate edits.
    if layer != 3 {
        return None;
    }
    // A cleared protection bit announces a CRC.
    let has_crc = (header[1] & 0x01) == 0;
    let bitrate_index: u8 = (header[2] >> 4) & 0x0F;
    if bitrate_index == 0 || bitrate_index == 15 {
        return None;
    }
    let bitrate_kbps: u32 = match version {
        MpegVersion::Mpeg1 => BITRATE_TABLE_MPEG1_L3[bitrate_index as usize],
        _ => BITRATE_TABLE_MPEG2_L3[bitrate_index as usize],
    };
    let sr_index: usize = ((header[2] >> 2) & 0x03) as usize;
    if sr_index == 3 {
        return None;
    }
    let version_index: usize = match version {
        MpegVersion::Mpeg1 => 0,
        MpegVersion::Mpeg2 => 1,
        MpegVersion::Mpeg25 => 2,
    };
    let sample_rate: u32 = SAMPLE_RATE_TABLE[version_index][sr_index];
    let padding = (header[2] & 0x02) != 0;
    let channel_bits: u8 = (header[3] >> 6) & 0x03;
    let channel_mode = match channel_bits {
        0b00 => ChannelMode::Stereo,
        0b01 => ChannelMode::JointStereo,
        0b10 => ChannelMode::DualChannel,
        _ => ChannelMode::Mono,
    };
    let samples_per_frame: usize = match version {
        MpegVersion::Mpeg1 => 1152,
        _ => 576,
    };
    let padding_size: usize = if padding {
        1
    } else {
        0
    };
    proof {
        assert(bitrate_kbps == bitrate_of(version, bitrate_index as int));
        assert(sample_rate == sample_rate_of(version, sr_index as int));
        assert(8 <= bitrate_kbps <= 320);
        assert(samples_per_frame * bitrate_kbps <= 1152 * 320) by (nonlinear_arith)
            requires
                samples_per_frame <= 1152,
                bitrate_kbps <= 320,
        ;
    }
    let frame_size: usize = (samples_per_frame * bitrate_kbps as usize * 125) / sample_rate as usize
        + padding_size;
    Some(
        FrameHeader {
            version,
            layer,
            has_crc,
            bitrate_kbps,
            sample_rate,
            padding,
            channel_mode,
            frame_size,
        },
    )
}

} // verus!
