//! Laws of the gain engine: what holds of every file and every step count.

use vstd::prelude::*;
use crate::mp3::bits::{
    lemma_field_is_local, lemma_read_after_write, lemma_write_back, lemma_write_footprint,
    lemma_write_keeps_other_bits, lemma_write_overwrites, read8, write8,
};
use crate::mp3::engine::{
    adjusted_fields, adjusted_gain, frame_at, frame_count, frame_count_from, gain_fields,
    gain_fields_from, gained, lemma_adjusted_fields_footprint, lemma_frame_at,
};
use crate::mp3::header::{decode_header, is_frame_header};
use crate::mp3::id3::audio_start;
use crate::mp3::locator::{gain_byte_offset, gain_location, gain_locations, lemma_gain_layout, GainLocation};

verus! {

/// The fields at `locs` lie inside `s` with both bytes of their windows, in
/// rising order, and no two of them share a byte.
pub open spec fn fields_apart(s: Seq<u8>, locs: Seq<GainLocation>) -> bool {
    &&& forall|k: int|
        0 <= k < locs.len() ==> (#[trigger] locs[k]).wf() && locs[k].byte_offset + 1 < s.len()
    &&& forall|j: int, k: int|
        0 <= j < k < locs.len() ==> (#[trigger] locs[j]).byte_offset + 1 < (#[trigger] locs[k]).byte_offset
}

/// The step count that takes effect: more than 255 steps up or down are 255.
pub open spec fn effective_steps(steps: int) -> int {
    if steps > 255 {
        255
    } else if steps < -255 {
        -255
    } else {
        steps
    }
}

/// Whether moving `gain` by `steps` runs into the lower or the upper end of
/// the range of a gain field.
pub open spec fn saturates(gain: u8, steps: int) -> bool {
    gain + effective_steps(steps) < 0 || gain + effective_steps(steps) > 255
}

/// A gain value that was moved without running into an end of the range comes
/// back when moved by the opposite number of steps.
pub proof fn lemma_adjusted_gain_round_trip(gain: u8, steps: int)
    requires
        !saturates(gain, steps),
    ensures
        adjusted_gain(adjusted_gain(gain, steps), -steps) == gain,
        !saturates(adjusted_gain(gain, steps), -steps),
{
}

/// Fields that lie apart are moved independently of each other: in the
/// window of each field the outcome is that of moving this field alone in
/// the buffer as it was, and the field then holds its moved value.
pub proof fn lemma_adjusted_fields_pointwise(s: Seq<u8>, locs: Seq<GainLocation>, steps: int)
    requires
        fields_apart(s, locs),
    ensures
        adjusted_fields(s, locs, steps).len() == s.len(),
        forall|k: int|
            #![trigger locs[k]]
            0 <= k < locs.len() ==> {
                let moved = write8(s, locs[k], adjusted_gain(read8(s, locs[k]), steps));
                let b = locs[k].byte_offset as int;
                &&& adjusted_fields(s, locs, steps)[b] == moved[b]
                &&& adjusted_fields(s, locs, steps)[b + 1] == moved[b + 1]
                &&& read8(adjusted_fields(s, locs, steps), locs[k]) == adjusted_gain(
                    read8(s, locs[k]),
                    steps,
                )
            },
    decreases locs.len(),
{
    lemma_adjusted_fields_footprint(s, locs, steps);
    if locs.len() > 0 {
        let earlier = locs.drop_last();
        let last = locs.last();
        let before = adjusted_fields(s, earlier, steps);
        let after = adjusted_fields(s, locs, steps);
        assert(fields_apart(s, earlier)) by {
            assert forall|k: int| 0 <= k < earlier.len() implies (#[trigger] earlier[k]).wf()
                && earlier[k].byte_offset + 1 < s.len() by {
                assert(earlier[k] == locs[k]);
            }
            assert forall|j: int, k: int| 0 <= j < k < earlier.len() implies (
            #[trigger] earlier[j]).byte_offset + 1 < (#[trigger] earlier[k]).byte_offset by {
                assert(earlier[j] == locs[j]);
                assert(earlier[k] == locs[k]);
            }
        }
        lemma_adjusted_fields_pointwise(s, earlier, steps);
        lemma_adjusted_fields_footprint(s, earlier, steps);
        let b_last = last.byte_offset as int;
        assert(last == locs[locs.len() - 1]);
        // The earlier fields lie in front of the window of the last one.
        assert(before[b_last] == s[b_last] && before[b_last + 1] == s[b_last + 1]) by {
            assert forall|k: int| 0 <= k < earlier.len() implies b_last != (
            #[trigger] earlier[k]).byte_offset && b_last != earlier[k].byte_offset + 1 && b_last + 1
                != earlier[k].byte_offset && b_last + 1 != earlier[k].byte_offset + 1 by {
                assert(earlier[k] == locs[k]);
            }
        }
        let value = adjusted_gain(read8(before, last), steps);
        lemma_field_is_local(before, s, last, value);
        lemma_write_footprint(before, last, value);
        lemma_read_after_write(before, last, value);
        assert forall|k: int|
            #![trigger locs[k]]
            0 <= k < locs.len() implies {
            let moved = write8(s, locs[k], adjusted_gain(read8(s, locs[k]), steps));
            let b = locs[k].byte_offset as int;
            &&& after[b] == moved[b]
            &&& after[b + 1] == moved[b + 1]
            &&& read8(after, locs[k]) == adjusted_gain(read8(s, locs[k]), steps)
        } by {
            if k < locs.len() - 1 {
                assert(earlier[k] == locs[k]);
                let b = locs[k].byte_offset as int;
                assert(after[b] == before[b] && after[b + 1] == before[b + 1]);
                lemma_field_is_local(after, before, locs[k], 0);
            }
        }
    }
}

/// The gain fields that a scan from `pos` finds lie apart, inside the buffer,
/// and begin seven bytes or more behind `pos`.
pub proof fn lemma_gain_fields_apart(s: Seq<u8>, pos: int)
    requires
        0 <= pos,
        s.len() <= usize::MAX,
    ensures
        fields_apart(s, gain_fields_from(s, pos)),
        forall|k: int|
            0 <= k < gain_fields_from(s, pos).len() ==> pos + 7 <= (#[trigger] gain_fields_from(
                s,
                pos,
            )[k]).byte_offset,
    decreases s.len() - pos,
{
    if pos + 4 <= s.len() {
        match frame_at(s, pos) {
            Some(header) => {
                lemma_frame_at(s, pos);
                lemma_gain_layout(pos, header);
                let next = pos + header.frame_size;
                lemma_gain_fields_apart(s, next);
                let here = gain_locations(pos, header);
                let rest = gain_fields_from(s, next);
                let all = gain_fields_from(s, pos);
                assert(all == here + rest);
                assert forall|k: int| 0 <= k < here.len() implies (#[trigger] here[k]).wf() && pos + 7
                    <= here[k].byte_offset && here[k].byte_offset + 1 < next by {
                    assert(here[k] == gain_location(pos, header, k));
                    assert(pos + 7 <= gain_byte_offset(pos, header, k));
                }
                assert forall|j: int, k: int| 0 <= j < k < here.len() implies (
                #[trigger] here[j]).byte_offset + 1 < (#[trigger] here[k]).byte_offset by {
                    assert(here[j] == gain_location(pos, header, j));
                    assert(here[k] == gain_location(pos, header, k));
                    assert(gain_byte_offset(pos, header, j) + 1 < gain_byte_offset(pos, header, k));
                    assert(pos + 7 <= gain_byte_offset(pos, header, j));
                    assert(pos + 7 <= gain_byte_offset(pos, header, k));
                }
                assert forall|k: int| 0 <= k < all.len() implies (#[trigger] all[k]).wf()
                    && all[k].byte_offset + 1 < s.len() && pos + 7 <= all[k].byte_offset by {
                    if k < here.len() {
                        assert(all[k] == here[k]);
                    } else {
                        assert(all[k] == rest[k - here.len()]);
                    }
                }
                assert forall|j: int, k: int| 0 <= j < k < all.len() implies (
                #[trigger] all[j]).byte_offset + 1 < (#[trigger] all[k]).byte_offset by {
                    if k < here.len() {
                        assert(all[j] == here[j]);
                        assert(all[k] == here[k]);
                    } else if j < here.len() {
                        assert(all[j] == here[j]);
                        assert(all[k] == rest[k - here.len()]);
                    } else {
                        assert(all[j] == rest[j - here.len()]);
                        assert(all[k] == rest[k - here.len()]);
                    }
                }
            },
            None => {
                lemma_gain_fields_apart(s, pos + 1);
            },
        }
    }
}

/// No gain field of the file runs into an end of its range when moved by
/// `steps`.
pub open spec fn no_field_saturates(s: Seq<u8>, steps: int) -> bool {
    forall|k: int| 0 <= k < gain_fields(s).len() ==> !saturates(read8(s, #[trigger] gain_fields(s)[k]), steps)
}

/// A gain adjustment never changes the length of a file, and it changes no
/// byte outside the windows of the gain fields: the headers, the audio data
/// and whatever else the file holds stay as they were.
pub proof fn lemma_gained_footprint(s: Seq<u8>, steps: int)
    ensures
        gained(s, steps).len() == s.len(),
        forall|j: int|
            0 <= j < s.len() && (forall|k: int|
                0 <= k < gain_fields(s).len() ==> j != (#[trigger] gain_fields(s)[k]).byte_offset && j
                    != gain_fields(s)[k].byte_offset + 1) ==> gained(s, steps)[j] == s[j],
{
    lemma_adjusted_fields_footprint(s, gain_fields(s), steps);
}

/// After a gain adjustment every gain field holds its former value moved by
/// `steps` and clamped to the range from 0 to 255.
pub proof fn lemma_gained_fields(s: Seq<u8>, steps: int)
    requires
        s.len() <= usize::MAX,
    ensures
        forall|k: int|
            0 <= k < gain_fields(s).len() ==> read8(gained(s, steps), #[trigger] gain_fields(s)[k])
                == adjusted_gain(read8(s, gain_fields(s)[k]), steps),
{
    lemma_gain_fields_apart(s, audio_start(s));
    lemma_adjusted_fields_pointwise(s, gain_fields(s), steps);
}

/// Inside the two bytes that a gain field touches, a gain adjustment leaves
/// the bits that are not the field's as they were: the `bit_offset` high
/// bits of the first byte and the `8 - bit_offset` low bits of the second.
pub proof fn lemma_gained_keeps_other_bits(s: Seq<u8>, steps: int)
    requires
        s.len() <= usize::MAX,
    ensures
        forall|k: int|
            #![trigger gain_fields(s)[k]]
            0 <= k < gain_fields(s).len() ==> {
                let loc = gain_fields(s)[k];
                let b = loc.byte_offset as int;
                &&& gained(s, steps)[b] >> ((8 - loc.bit_offset) as u8) == s[b] >> ((8
                    - loc.bit_offset) as u8)
                &&& gained(s, steps)[b + 1] & (0xFFu8 >> loc.bit_offset) == s[b + 1] & (0xFFu8
                    >> loc.bit_offset)
            },
{
    let locs = gain_fields(s);
    lemma_gain_fields_apart(s, audio_start(s));
    lemma_adjusted_fields_pointwise(s, locs, steps);
    assert forall|k: int|
        #![trigger locs[k]]
        0 <= k < locs.len() implies {
        let loc = locs[k];
        let b = loc.byte_offset as int;
        &&& gained(s, steps)[b] >> ((8 - loc.bit_offset) as u8) == s[b] >> ((8 - loc.bit_offset) as u8)
        &&& gained(s, steps)[b + 1] & (0xFFu8 >> loc.bit_offset) == s[b + 1] & (0xFFu8
            >> loc.bit_offset)
    } by {
        lemma_write_keeps_other_bits(s, locs[k], adjusted_gain(read8(s, locs[k]), steps));
    }
}

/// A gain adjustment by `steps` followed by one by `-steps` restores the file
/// byte for byte, provided that no field ran into an end of its range and
/// that the second adjustment finds the gain fields where the first did.
pub proof fn lemma_gain_round_trip(s: Seq<u8>, steps: int)
    requires
        s.len() <= usize::MAX,
        no_field_saturates(s, steps),
        gain_fields(gained(s, steps)) == gain_fields(s),
    ensures
        gained(gained(s, steps), -steps) == s,
{
    if steps != 0 {
        let locs = gain_fields(s);
        let up = gained(s, steps);
        let back = gained(up, -steps);
        lemma_gain_fields_apart(s, audio_start(s));
        lemma_adjusted_fields_pointwise(s, locs, steps);
        assert(fields_apart(up, locs));
        lemma_adjusted_fields_pointwise(up, locs, -steps);
        lemma_adjusted_fields_footprint(s, locs, steps);
        lemma_adjusted_fields_footprint(up, locs, -steps);
        assert forall|j: int| 0 <= j < s.len() implies back[j] == s[j] by {
            if exists|k: int|
                0 <= k < locs.len() && (j == (#[trigger] locs[k]).byte_offset || j == locs[k].byte_offset
                    + 1) {
                let k = choose|k: int|
                    0 <= k < locs.len() && (j == (#[trigger] locs[k]).byte_offset || j
                        == locs[k].byte_offset + 1);
                let loc = locs[k];
                let gain = read8(s, loc);
                let moved = adjusted_gain(gain, steps);
                lemma_adjusted_gain_round_trip(gain, steps);
                // In the window of the field, `up` is `s` with the moved value stored.
                let stored = write8(s, loc, moved);
                lemma_write_footprint(s, loc, moved);
                lemma_field_is_local(up, stored, loc, gain);
                lemma_write_overwrites(s, loc, moved, gain);
                lemma_write_back(s, loc);
            }
        }
        assert(back =~= s);
    }
}

/// Whether byte `j` belongs to the window of one of the fields at `locs`.
pub open spec fn in_window(locs: Seq<GainLocation>, j: int) -> bool {
    exists|k: int|
        0 <= k < locs.len() && (j == (#[trigger] locs[k]).byte_offset || j == locs[k].byte_offset + 1)
}

/// Whether the candidate header at `pos` is checked against a byte of a gain
/// field: the header parses, two bytes or more are left where the frame it
/// announces would end, and one of these two bytes lies in the window of a
/// field at `locs`.
pub open spec fn check_reads_field(s: Seq<u8>, locs: Seq<GainLocation>, pos: int) -> bool {
    &&& is_frame_header(s.subrange(pos, pos + 4))
    &&& pos + decode_header(s.subrange(pos, pos + 4)).frame_size + 2 <= s.len()
    &&& {
        let next = pos + decode_header(s.subrange(pos, pos + 4)).frame_size;
        in_window(locs, next) || in_window(locs, next + 1)
    }
}

/// On its way from `pos` to the end, the scan passes over no candidate
/// header on the strength of bytes that belong to a gain field at `locs`.
pub open spec fn rejections_avoid_fields_from(s: Seq<u8>, locs: Seq<GainLocation>, pos: int) -> bool
    decreases s.len() - pos,
{
    if pos < 0 || pos + 4 > s.len() {
        true
    } else {
        match frame_at(s, pos) {
            Some(header) => {
                proof {
                    lemma_frame_at(s, pos);
                }
                rejections_avoid_fields_from(s, locs, pos + header.frame_size)
            },
            None => !check_reads_field(s, locs, pos) && rejections_avoid_fields_from(s, locs, pos + 1),
        }
    }
}

/// What the scan of the file passes over, it passes over for reasons that a
/// gain adjustment cannot change: no candidate header is weighed against
/// bytes of a gain field. This holds of a file whose frames follow one
/// another without a gap, and of one that ends in a tag or other data in
/// which nothing looks like a frame header.
pub open spec fn rejections_avoid_fields(s: Seq<u8>) -> bool {
    rejections_avoid_fields_from(s, gain_fields(s), audio_start(s))
}

/// Frames follow one another from `pos` to the end of the buffer: wherever
/// the scan arrives with four bytes or more left, it finds a frame.
pub open spec fn frames_contiguous_from(s: Seq<u8>, pos: int) -> bool
    decreases s.len() - pos,
{
    if pos < 0 || pos + 4 > s.len() {
        true
    } else {
        match frame_at(s, pos) {
            Some(header) => {
                proof {
                    lemma_frame_at(s, pos);
                }
                frames_contiguous_from(s, pos + header.frame_size)
            },
            None => false,
        }
    }
}

/// The file is made of frames that follow one another without a gap, behind
/// the ID3v2 tag if there is one.
pub open spec fn frames_contiguous(s: Seq<u8>) -> bool {
    frames_contiguous_from(s, audio_start(s))
}

/// Where frames follow one another without a gap, the scan passes over
/// nothing at all.
pub proof fn lemma_contiguous_frames_avoid_fields(s: Seq<u8>, locs: Seq<GainLocation>, pos: int)
    requires
        frames_contiguous_from(s, pos),
    ensures
        rejections_avoid_fields_from(s, locs, pos),
    decreases s.len() - pos,
{
    if pos >= 0 && pos + 4 <= s.len() {
        lemma_frame_at(s, pos);
        lemma_contiguous_frames_avoid_fields(s, locs, pos + frame_at(s, pos).unwrap().frame_size);
    }
}

/// A buffer `t` that differs from `s` in the windows of the gain fields
/// alone holds, from `pos` on, the frames that `s` holds, provided that the
/// scan of `s` passes over no candidate on the strength of such bytes.
proof fn lemma_scan_is_stable(s: Seq<u8>, t: Seq<u8>, locs: Seq<GainLocation>, pos: int)
    requires
        0 <= pos,
        s.len() == t.len(),
        s.len() <= usize::MAX,
        rejections_avoid_fields_from(s, locs, pos),
        forall|j: int| 0 <= j < s.len() && !in_window(locs, j) ==> t[j] == s[j],
        forall|j: int| pos <= j && in_window(locs, j) ==> in_window(gain_fields_from(s, pos), j),
    ensures
        gain_fields_from(t, pos) == gain_fields_from(s, pos),
        frame_count_from(t, pos) == frame_count_from(s, pos),
        rejections_avoid_fields_from(t, locs, pos),
    decreases s.len() - pos,
{
    if pos + 4 <= s.len() {
        let all = gain_fields_from(s, pos);
        lemma_gain_fields_apart(s, pos);
        // No window begins in front of the eighth byte behind `pos`.
        assert forall|j: int| pos <= j < pos + 7 implies !in_window(locs, j) by {
            if in_window(all, j) {
                let k = choose|k: int|
                    0 <= k < all.len() && (j == (#[trigger] all[k]).byte_offset || j == all[k].byte_offset
                        + 1);
            }
        }
        assert(t.subrange(pos, pos + 4) =~= s.subrange(pos, pos + 4));
        match frame_at(s, pos) {
            Some(header) => {
                let next = pos + header.frame_size;
                let here = gain_locations(pos, header);
                let rest = gain_fields_from(s, next);
                lemma_frame_at(s, pos);
                lemma_gain_layout(pos, header);
                lemma_gain_fields_apart(s, next);
                assert(all == here + rest);
                // Behind the frame, the windows are those of the fields found from there on.
                assert forall|j: int| next <= j && in_window(locs, j) implies in_window(rest, j) by {
                    let k = choose|k: int|
                        0 <= k < all.len() && (j == (#[trigger] all[k]).byte_offset || j
                            == all[k].byte_offset + 1);
                    if k < here.len() {
                        assert(all[k] == here[k]);
                        assert(here[k] == gain_location(pos, header, k));
                        assert(gain_byte_offset(pos, header, k) + 1 < next);
                    } else {
                        assert(all[k] == rest[k - here.len()]);
                    }
                }
                assert forall|j: int| next <= j < next + 7 implies !in_window(locs, j) by {
                    if in_window(rest, j) {
                        let k = choose|k: int|
                            0 <= k < rest.len() && (j == (#[trigger] rest[k]).byte_offset || j
                                == rest[k].byte_offset + 1);
                    }
                }
                assert(frame_at(t, pos) == Some(header));
                lemma_scan_is_stable(s, t, locs, next);
            },
            None => {
                assert(frame_at(t, pos) is None);
                assert(check_reads_field(t, locs, pos) == check_reads_field(s, locs, pos));
                lemma_scan_is_stable(s, t, locs, pos + 1);
            },
        }
    }
}

/// A gain adjustment leaves every frame, and so every gain field, where it
/// was, provided that the scan of the file passes over no candidate header
/// on the strength of bytes that belong to a gain field: a second adjustment
/// then finds what the first one found.
pub proof fn lemma_frames_are_stable(s: Seq<u8>, steps: int)
    requires
        s.len() <= usize::MAX,
        rejections_avoid_fields(s),
    ensures
        audio_start(gained(s, steps)) == audio_start(s),
        gain_fields(gained(s, steps)) == gain_fields(s),
        frame_count(gained(s, steps)) == frame_count(s),
        rejections_avoid_fields(gained(s, steps)),
{
    let t = gained(s, steps);
    let start = audio_start(s);
    let locs = gain_fields(s);
    lemma_gain_fields_apart(s, start);
    lemma_adjusted_fields_footprint(s, locs, steps);
    assert forall|j: int| 0 <= j < s.len() && !in_window(locs, j) implies t[j] == s[j] by {
    }
    assert forall|j: int| 0 <= j < s.len() && j < start + 7 implies !in_window(locs, j) by {
    }
    assert(audio_start(t) == start);
    lemma_scan_is_stable(s, t, locs, start);
}

/// A gain adjustment by `steps` followed by one by `-steps` restores the file
/// byte for byte, provided that no field ran into an end of its range and
/// that the scan of the file passes over no candidate header on the strength
/// of bytes that belong to a gain field.
pub proof fn lemma_gain_round_trip_stable(s: Seq<u8>, steps: int)
    requires
        s.len() <= usize::MAX,
        rejections_avoid_fields(s),
        no_field_saturates(s, steps),
    ensures
        gained(gained(s, steps), -steps) == s,
{
    lemma_frames_are_stable(s, steps);
    lemma_gain_round_trip(s, steps);
}

/// In a file whose frames follow one another without a gap, a gain
/// adjustment by `steps` followed by one by `-steps` restores the file byte
/// for byte, provided that no field ran into an end of its range.
pub proof fn lemma_gain_round_trip_contiguous(s: Seq<u8>, steps: int)
    requires
        s.len() <= usize::MAX,
        frames_contiguous(s),
        no_field_saturates(s, steps),
    ensures
        gained(gained(s, steps), -steps) == s,
{
    lemma_contiguous_frames_avoid_fields(s, gain_fields(s), audio_start(s));
    lemma_gain_round_trip_stable(s, steps);
}

} // verus!
