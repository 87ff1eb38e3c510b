//! Gain field locator: where the `global_gain` fields of a frame lie.

use vstd::prelude::*;
use crate::mp3::header::{
    bitrate_of, lemma_frame_length_bounds, sample_rate_of, ChannelMode, FrameHeader, MpegVersion,
};

verus! {

/// Position of one 8-bit `global_gain` field in a buffer: the byte that holds
/// its first bit, and the index of that bit in the byte, counted from the
/// most significant bit.
#[derive(Debug, Clone, Copy, PartialEq, Eq, Structural)]
pub struct GainLocation {
    pub byte_offset: usize,
    pub bit_offset: u8,
}

impl GainLocation {
    /// The bit offset names a bit of the byte.
    pub open spec fn wf(self) -> bool {
        self.bit_offset < 8
    }
}

/// Bits of `part2_3_length` (12) and `big_values` (9) that precede
/// `global_gain` in the record of each granule and channel.
pub const BITS_BEFORE_GAIN: usize = 21;

/// Side-information bits in front of the first granule record:
/// `main_data_begin`, the private bits and, in MPEG1, the `scfsi` flags.
pub open spec fn bits_before_granules(header: FrameHeader) -> int {
    if header.version == MpegVersion::Mpeg1 {
        if header.channel_mode == ChannelMode::Mono {
            18
        } else {
            20
        }
    } else {
        if header.channel_mode == ChannelMode::Mono {
            9
        } else {
            10
        }
    }
}

/// Width in bits of the side-information record of one granule and channel.
pub open spec fn bits_per_granule_channel(version: MpegVersion) -> int {
    if version == MpegVersion::Mpeg1 {
        59
    } else {
        63
    }
}

/// Number of `global_gain` fields in a frame: one per granule and channel.
pub open spec fn gain_field_count(header: FrameHeader) -> int {
    if header.channel_mode == ChannelMode::Mono {
        header.version.granules()
    } else {
        2 * header.version.granules()
    }
}

/// Place of a granule and channel in the on-disk order of the records:
/// granule-major, channel-minor.
pub open spec fn record_index(header: FrameHeader, granule: int, channel: int) -> int {
    if header.channel_mode == ChannelMode::Mono {
        granule + channel
    } else {
        2 * granule + channel
    }
}

/// Offset in bits, from the start of the side information, of the
/// `global_gain` field of the record with the given index: the bits in front
/// of the granules, the records before this one, and the 21 bits that
/// precede the field in its own record.
pub open spec fn gain_bit_position(header: FrameHeader, index: int) -> int {
    let records = if header.version == MpegVersion::Mpeg1 {
        59 * index
    } else {
        63 * index
    };
    bits_before_granules(header) + records + BITS_BEFORE_GAIN
}

/// Offset in bytes, from the start of the buffer, of the byte in which the
/// `global_gain` field with the given index begins, for a frame that starts
/// at `frame_offset`.
pub open spec fn gain_byte_offset(frame_offset: int, header: FrameHeader, index: int) -> int {
    frame_offset + header.side_info_start() + gain_bit_position(header, index) / 8
}

/// Location of the `global_gain` field with the given index.
pub open spec fn gain_location(frame_offset: int, header: FrameHeader, index: int) -> GainLocation {
    GainLocation {
        byte_offset: gain_byte_offset(frame_offset, header, index) as usize,
        bit_offset: (gain_bit_position(header, index) % 8) as u8,
    }
}

/// The locations of all `global_gain` fields of a frame, in on-disk order.
pub open spec fn gain_locations(frame_offset: int, header: FrameHeader) -> Seq<GainLocation> {
    Seq::new(gain_field_count(header) as nat, |index: int| gain_location(frame_offset, header, index))
}

/// Layout of the gain fields of a frame: there are one to four, each begins
/// at least 7 and at most 33 bytes into the frame, and two fields never
/// share a byte.
pub proof fn lemma_gain_layout(frame_offset: int, header: FrameHeader)
    ensures
        1 <= gain_field_count(header) <= 4,
        forall|k: int|
            0 <= k < gain_field_count(header) ==> frame_offset + 7 <= #[trigger] gain_byte_offset(
                frame_offset,
                header,
                k,
            ) <= frame_offset + 33,
        forall|k: int|
            0 <= k < gain_field_count(header) && header.version != MpegVersion::Mpeg1
                ==> #[trigger] gain_byte_offset(frame_offset, header, k) <= frame_offset + 17,
        forall|j: int, k: int|
            0 <= j < k < gain_field_count(header) ==> #[trigger] gain_byte_offset(
                frame_offset,
                header,
                j,
            ) + 1 < #[trigger] gain_byte_offset(frame_offset, header, k),
{
}

/// Both bytes of every gain field lie inside the frame that holds it.
pub proof fn lemma_gain_fields_inside_frame(frame_offset: int, header: FrameHeader, index: int)
    requires
        header.wf(),
        0 <= index < gain_field_count(header),
    ensures
        frame_offset + 7 <= gain_byte_offset(frame_offset, header, index),
        gain_byte_offset(frame_offset, header, index) + 1 < frame_offset + header.frame_size,
{
    lemma_gain_layout(frame_offset, header);
    let i = choose|i: int| 1 <= i <= 14 && header.bitrate_kbps == #[trigger] bitrate_of(header.version, i);
    let j = choose|j: int| 0 <= j <= 2 && header.sample_rate == #[trigger] sample_rate_of(header.version, j);
    lemma_frame_length_bounds(header.version, i, j, header.padding);
}

/// Computes the locations of the `global_gain` fields of the frame that
/// starts at `frame_offset`: one per granule and channel, granule by granule
/// and, within a granule, channel by channel.
pub fn calculate_gain_locations(frame_offset: usize, header: &FrameHeader) -> (locations: Vec<GainLocation>)
    requires
        gain_byte_offset(frame_offset as int, *header, gain_field_count(*header) - 1) <= usize::MAX,
    ensures
        locations@ == gain_locations(frame_offset as int, *header),
        forall|granule: int, channel: int|
            0 <= granule < header.version.granules() && 0 <= channel < header.channel_mode.channels()
                ==> locations@[#[trigger] record_index(*header, granule, channel)] == gain_location(
                frame_offset as int,
                *header,
                record_index(*header, granule, channel),
            ),
{
    let mut locations: Vec<GainLocation> = Vec::new();
    let side_info_start: usize = frame_offset + header.side_info_offset();
    let num_channels: usize = header.channel_mode.channel_count();
    let num_granules: usize = header.granule_count();
    let bits_before_granules: usize = match (header.version, num_channels) {
        (MpegVersion::Mpeg1, 1) => 18,
        (MpegVersion::Mpeg1, _) => 20,
        (_, 1) => 9,
        (_, _) => 10,
    };
    let bits_per_granule_channel: usize = match header.version {
        MpegVersion::Mpeg1 => 59,
        _ => 63,
    };
    proof {
        lemma_gain_layout(frame_offset as int, *header);
    }
    let mut gr: usize = 0;
    while gr < num_granules
        invariant
            gr <= num_granules,
            num_granules == header.version.granules(),
            num_channels == header.channel_mode.channels(),
            side_info_start == frame_offset + header.side_info_start(),
            bits_before_granules == self::bits_before_granules(*header),
            bits_per_granule_channel == self::bits_per_granule_channel(header.version),
            gain_byte_offset(frame_offset as int, *header, gain_field_count(*header) - 1) <= usize::MAX,
            locations@.len() == record_index(*header, gr as int, 0),
            forall|k: int|
                0 <= k < locations@.len() ==> locations@[k] == gain_location(
                    frame_offset as int,
                    *header,
                    k,
                ),
        decreases num_granules - gr,
    {
        let mut ch: usize = 0;
        while ch < num_channels
            invariant
                gr < num_granules,
                ch <= num_channels,
                num_granules == header.version.granules(),
                num_channels == header.channel_mode.channels(),
                side_info_start == frame_offset + header.side_info_start(),
                bits_before_granules == self::bits_before_granules(*header),
                bits_per_granule_channel == self::bits_per_granule_channel(header.version),
                gain_byte_offset(frame_offset as int, *header, gain_field_count(*header) - 1)
                    <= usize::MAX,
                locations@.len() == record_index(*header, gr as int, ch as int),
                forall|k: int|
                    0 <= k < locations@.len() ==> locations@[k] == gain_location(
                        frame_offset as int,
                        *header,
                        k,
                    ),
            decreases num_channels - ch,
        {
            let record: usize = gr * num_channels + ch;
            assert(record == record_index(*header, gr as int, ch as int));
            let granule_start_bit: usize = bits_before_granules + record * bits_per_granule_channel;
            let global_gain_bit: usize = granule_start_bit + BITS_BEFORE_GAIN;
            assert(global_gain_bit == gain_bit_position(*header, record as int));
            let byte_offset: usize = side_info_start + global_gain_bit / 8;
            let bit_offset: u8 = (global_gain_bit % 8) as u8;
            locations.push(GainLocation { byte_offset, bit_offset });
            ch += 1;
        }
        gr += 1;
    }
    assert(locations@ =~= gain_locations(frame_offset as int, *header));
    locations
}

} // verus!
