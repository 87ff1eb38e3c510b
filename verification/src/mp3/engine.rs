//! Frame walker and gain engine: finds the frames of a file and moves every
//! `global_gain` field of every frame by a number of steps.

use vstd::prelude::*;
use crate::mp3::bits::{lemma_write_footprint, read8, read_gain_at, write8, write_gain_at};
use crate::mp3::header::{
    has_sync, header_of, is_frame_header, is_sync, lemma_header_of_wf, parse_header, FrameHeader,
    MAX_FRAME_SIZE, MIN_FRAME_SIZE,
};
use crate::mp3::id3::{audio_start, skip_id3v2};
use crate::mp3::locator::{
    calculate_gain_locations, gain_byte_offset, gain_field_count, gain_location, gain_locations,
    lemma_gain_fields_inside_frame, lemma_gain_layout, GainLocation,
};

verus! {

/// A gain value moved by `steps` and clamped to the range of the field: no
/// wraparound in either direction.
pub open spec fn adjusted_gain(gain: u8, steps: int) -> u8 {
    if gain + steps > 255 {
        255
    } else if gain + steps < 0 {
        0
    } else {
        (gain + steps) as u8
    }
}

/// Moves a gain value by `steps`, saturating at 0 and at 255.
pub fn adjust_gain(gain: u8, steps: i32) -> (adjusted: u8)
    ensures
        adjusted == adjusted_gain(gain, steps as int),
{
    if steps > 0 {
        let increase: u8 = if steps > 255 {
            255
        } else {
            steps as u8
        };
        gain.saturating_add(increase)
    } else {
        let decrease: u8 = if steps < -255 {
            255
        } else {
            (-steps) as u8
        };
        gain.saturating_sub(decrease)
    }
}

/// The buffer `s` after the fields at `locs` have been moved by `steps`, one
/// after the other in the order of `locs`.
pub open spec fn adjusted_fields(s: Seq<u8>, locs: Seq<GainLocation>, steps: int) -> Seq<u8>
    decreases locs.len(),
{
    if locs.len() == 0 {
        s
    } else {
        let before = adjusted_fields(s, locs.drop_last(), steps);
        write8(before, locs.last(), adjusted_gain(read8(before, locs.last()), steps))
    }
}

/// Moving fields never changes the length of the buffer, nor any byte that
/// belongs to none of the fields.
pub proof fn lemma_adjusted_fields_footprint(s: Seq<u8>, locs: Seq<GainLocation>, steps: int)
    ensures
        adjusted_fields(s, locs, steps).len() == s.len(),
        forall|j: int|
            0 <= j < s.len() && (forall|k: int|
                0 <= k < locs.len() ==> j != (#[trigger] locs[k]).byte_offset && j != locs[k].byte_offset
                    + 1) ==> adjusted_fields(s, locs, steps)[j] == s[j],
    decreases locs.len(),
{
    if locs.len() > 0 {
        let before = adjusted_fields(s, locs.drop_last(), steps);
        lemma_adjusted_fields_footprint(s, locs.drop_last(), steps);
        lemma_write_footprint(before, locs.last(), adjusted_gain(read8(before, locs.last()), steps));
        assert forall|j: int|
            0 <= j < s.len() && (forall|k: int|
                0 <= k < locs.len() ==> j != (#[trigger] locs[k]).byte_offset && j != locs[k].byte_offset
                    + 1) implies adjusted_fields(s, locs, steps)[j] == s[j] by {
            assert(locs[locs.len() - 1] == locs.last());
            assert forall|k: int| 0 <= k < locs.drop_last().len() implies j != (
            #[trigger] locs.drop_last()[k]).byte_offset && j != locs.drop_last()[k].byte_offset + 1 by {
                assert(locs.drop_last()[k] == locs[k]);
            }
        }
    }
}

/// Moving the fields of a list made of two parts is moving those of the
/// first part and then those of the second.
pub proof fn lemma_adjusted_fields_concat(
    s: Seq<u8>,
    first: Seq<GainLocation>,
    second: Seq<GainLocation>,
    steps: int,
)
    ensures
        adjusted_fields(s, first + second, steps) == adjusted_fields(
            adjusted_fields(s, first, steps),
            second,
            steps,
        ),
    decreases second.len(),
{
    if second.len() == 0 {
        assert(first + second =~= first);
    } else {
        lemma_adjusted_fields_concat(s, first, second.drop_last(), steps);
        assert((first + second).drop_last() =~= first + second.drop_last());
        assert((first + second).last() == second.last());
    }
}

/// Moves every `global_gain` field of the frame that starts at `pos` by
/// `steps`, saturating at 0 and at 255.
pub fn adjust_frame(data: &mut [u8], pos: usize, header: &FrameHeader, steps: i32)
    requires
        gain_byte_offset(pos as int, *header, gain_field_count(*header) - 1) <= usize::MAX,
    ensures
        final(data)@ == adjusted_fields(old(data)@, gain_locations(pos as int, *header), steps as int),
        final(data)@.len() == old(data)@.len(),
{
    let locations = calculate_gain_locations(pos, header);
    let ghost before = data@;
    let mut i: usize = 0;
    while i < locations.len()
        invariant
            i <= locations@.len(),
            locations@ == gain_locations(pos as int, *header),
            data@ == adjusted_fields(before, locations@.take(i as int), steps as int),
        decreases locations@.len() - i,
    {
        let current_gain = read_gain_at(data, &locations[i]);
        let new_gain = adjust_gain(current_gain, steps);
        write_gain_at(data, &locations[i], new_gain);
        proof {
            let done = locations@.take(i + 1);
            assert(done.drop_last() =~= locations@.take(i as int));
            assert(done.last() == locations@[i as int]);
        }
        i += 1;
    }
    proof {
        assert(locations@.take(i as int) =~= locations@);
        lemma_adjusted_fields_footprint(before, locations@, steps as int);
    }
}

/// Whether the bytes at `next`, where the frame after a candidate would
/// begin, confirm the candidate: a frame sync where two bytes or more are
/// left, and otherwise no more than that the candidate ends inside the buffer.
pub open spec fn next_frame_confirms(s: Seq<u8>, next: int) -> bool {
    if next + 2 <= s.len() {
        is_sync(s[next], s[next + 1])
    } else {
        next <= s.len()
    }
}

/// The header of the frame that starts at `pos`, where one does: four bytes
/// or more are left, they parse as a frame header, and what follows the frame
/// confirms it.
pub open spec fn frame_at(s: Seq<u8>, pos: int) -> Option<FrameHeader> {
    if 0 <= pos && pos + 4 <= s.len() && is_frame_header(s.subrange(pos, pos + 4)) {
        let header = header_of(s.subrange(pos, pos + 4)).unwrap();
        if next_frame_confirms(s, pos + header.frame_size) {
            Some(header)
        } else {
            None
        }
    } else {
        None
    }
}

/// A frame found at `pos` has a well-formed header, ends inside the buffer,
/// and holds every byte of its gain fields.
pub proof fn lemma_frame_at(s: Seq<u8>, pos: int)
    requires
        frame_at(s, pos) is Some,
    ensures
        frame_at(s, pos).unwrap().wf(),
        MIN_FRAME_SIZE <= frame_at(s, pos).unwrap().frame_size <= MAX_FRAME_SIZE,
        0 <= pos,
        pos + frame_at(s, pos).unwrap().frame_size <= s.len(),
        forall|k: int|
            0 <= k < gain_field_count(frame_at(s, pos).unwrap()) ==> pos + 7 <= #[trigger] gain_byte_offset(
                pos,
                frame_at(s, pos).unwrap(),
                k,
            ) && gain_byte_offset(pos, frame_at(s, pos).unwrap(), k) + 1 < pos + frame_at(
                s,
                pos,
            ).unwrap().frame_size,
{
    let header = frame_at(s, pos).unwrap();
    lemma_header_of_wf(s.subrange(pos, pos + 4));
    assert forall|k: int| 0 <= k < gain_field_count(header) implies pos + 7 <= #[trigger] gain_byte_offset(
        pos,
        header,
        k,
    ) && gain_byte_offset(pos, header, k) + 1 < pos + header.frame_size by {
        lemma_gain_fields_inside_frame(pos, header, k);
    }
}

/// Checks what follows a candidate frame that would end at `next_pos`: a
/// frame sync must stand there where two bytes or more are left; with fewer
/// left the candidate is the last frame, provided it ends inside the data.
pub fn confirms_frame(data: &[u8], next_pos: usize) -> (confirmed: bool)
    ensures
        confirmed == next_frame_confirms(data@, next_pos as int),
{
    let file_size = data.len();
    if next_pos > file_size {
        false
    } else if file_size - next_pos >= 2 {
        has_sync(data[next_pos], data[next_pos + 1])
    } else {
        true
    }
}

/// Looks for a frame at `pos`: parses the header there and checks that the
/// frame it announces is followed by another frame sync or ends the data.
/// A header that fails this check is a false positive and yields `None`.
pub fn valid_frame_at(data: &[u8], pos: usize) -> (found: Option<FrameHeader>)
    ensures
        found == frame_at(data@, pos as int),
{
    let file_size = data.len();
    if pos > file_size || file_size - pos < 4 {
        return None;
    }
    let header = match parse_header(&data[pos..pos + 4]) {
        Some(h) => h,
        None => {
            return None;
        },
    };
    // The size that an unconfirmed header announces is no jump target yet.
    if header.frame_size > file_size - pos {
        return None;
    }
    if confirms_frame(data, pos + header.frame_size) {
        Some(header)
    } else {
        None
    }
}

/// The `global_gain` fields of all frames that a scan from `pos` finds, in
/// the order of the file. The scan takes a frame wherever `frame_at` finds
/// one and goes on behind it; elsewhere it moves on by one byte.
pub open spec fn gain_fields_from(s: Seq<u8>, pos: int) -> Seq<GainLocation>
    decreases s.len() - pos,
{
    if pos < 0 || pos + 4 > s.len() {
        Seq::empty()
    } else {
        match frame_at(s, pos) {
            Some(header) => {
                proof {
                    lemma_frame_at(s, pos);
                }
                gain_locations(pos, header) + gain_fields_from(s, pos + header.frame_size)
            },
            None => gain_fields_from(s, pos + 1),
        }
    }
}

/// The number of frames that a scan from `pos` finds.
pub open spec fn frame_count_from(s: Seq<u8>, pos: int) -> nat
    decreases s.len() - pos,
{
    if pos < 0 || pos + 4 > s.len() {
        0
    } else {
        match frame_at(s, pos) {
            Some(header) => {
                proof {
                    lemma_frame_at(s, pos);
                }
                1 + frame_count_from(s, pos + header.frame_size)
            },
            None => frame_count_from(s, pos + 1),
        }
    }
}

/// The `global_gain` fields of the file `s`: those of every frame found
/// behind the ID3v2 tag, if there is one.
pub open spec fn gain_fields(s: Seq<u8>) -> Seq<GainLocation> {
    gain_fields_from(s, audio_start(s))
}

/// The number of frames of the file `s`.
pub open spec fn frame_count(s: Seq<u8>) -> nat {
    frame_count_from(s, audio_start(s))
}

/// The file `s` with every `global_gain` field moved by `steps`.
pub open spec fn gained(s: Seq<u8>, steps: int) -> Seq<u8> {
    if steps == 0 {
        s
    } else {
        adjusted_fields(s, gain_fields(s), steps)
    }
}

/// What a scan finds from `pos` on depends on the bytes from `pos` on alone.
pub proof fn lemma_scan_is_local(s: Seq<u8>, t: Seq<u8>, pos: int)
    requires
        s.len() == t.len(),
        forall|j: int| pos <= j < s.len() ==> s[j] == t[j],
    ensures
        pos >= 0 ==> frame_at(s, pos) == frame_at(t, pos),
        gain_fields_from(s, pos) == gain_fields_from(t, pos),
        frame_count_from(s, pos) == frame_count_from(t, pos),
    decreases s.len() - pos,
{
    if pos >= 0 && pos + 4 <= s.len() {
        assert(s.subrange(pos, pos + 4) =~= t.subrange(pos, pos + 4));
        match frame_at(s, pos) {
            Some(header) => {
                lemma_frame_at(s, pos);
                lemma_scan_is_local(s, t, pos + header.frame_size);
            },
            None => {
                lemma_scan_is_local(s, t, pos + 1);
            },
        }
    }
}

/// Moving the gain fields of a frame changes no byte in front of the seventh
/// byte of the frame, and none behind the frame.
pub proof fn lemma_adjusted_frame_footprint(s: Seq<u8>, pos: int, header: FrameHeader, steps: int)
    requires
        header.wf(),
        0 <= pos,
        pos + header.frame_size <= usize::MAX,
    ensures
        adjusted_fields(s, gain_locations(pos, header), steps).len() == s.len(),
        forall|j: int|
            0 <= j < s.len() && (j < pos + 7 || j >= pos + header.frame_size) ==> adjusted_fields(
                s,
                gain_locations(pos, header),
                steps,
            )[j] == s[j],
{
    let locations = gain_locations(pos, header);
    lemma_adjusted_fields_footprint(s, locations, steps);
    assert forall|j: int|
        0 <= j < s.len() && (j < pos + 7 || j >= pos + header.frame_size) implies adjusted_fields(
        s,
        locations,
        steps,
    )[j] == s[j] by {
        assert forall|k: int| 0 <= k < locations.len() implies j != (#[trigger] locations[k]).byte_offset
            && j != locations[k].byte_offset + 1 by {
            lemma_gain_fields_inside_frame(pos, header, k);
            assert(locations[k] == gain_location(pos, header, k));
        }
    }
}

/// One step of the scan at a position where a frame is found: the fields of
/// the file from there are those of the frame, then those found behind it.
pub proof fn lemma_scan_takes_frame(s: Seq<u8>, pos: int)
    requires
        frame_at(s, pos) is Some,
    ensures
        gain_fields_from(s, pos) == gain_locations(pos, frame_at(s, pos).unwrap()) + gain_fields_from(
            s,
            pos + frame_at(s, pos).unwrap().frame_size,
        ),
        frame_count_from(s, pos) == 1 + frame_count_from(s, pos + frame_at(s, pos).unwrap().frame_size),
{
    lemma_frame_at(s, pos);
}

/// Applies a gain adjustment of `gain_steps` steps of 1.5 dB to the MP3 file
/// held in `data`, in place, and returns the number of frames modified.
///
/// The scan starts behind a leading ID3v2 tag. Wherever a frame header
/// parses and the frame it announces is confirmed by what follows it, every
/// `global_gain` field of the frame is moved by `gain_steps`, saturating at 0
/// and at 255, and the scan goes on behind the frame. Elsewhere the scan
/// moves on by one byte. With zero steps nothing is read or changed. The
/// length of the data never changes.
pub fn apply_gain(data: &mut [u8], gain_steps: i32) -> (modified_frames: usize)
    ensures
        final(data)@ == gained(old(data)@, gain_steps as int),
        final(data)@.len() == old(data)@.len(),
        modified_frames == if gain_steps == 0 {
            0
        } else {
            frame_count(old(data)@)
        },
{
    if gain_steps == 0 {
        return 0;
    }
    let ghost initial = data@;
    let file_size = data.len();
    let mut modified_frames: usize = 0;
    let mut pos = skip_id3v2(data);
    let ghost mut done: Seq<GainLocation> = Seq::empty();
    while pos < file_size && file_size - pos >= 4
        invariant
            file_size == initial.len(),
            data@.len() == initial.len(),
            data@ == adjusted_fields(initial, done, gain_steps as int),
            forall|j: int| pos <= j < initial.len() ==> data@[j] == initial[j],
            gain_fields(initial) == done + gain_fields_from(initial, pos as int),
            frame_count(initial) == modified_frames + frame_count_from(initial, pos as int),
            modified_frames <= pos,
        decreases file_size - pos,
    {
        proof {
            lemma_scan_is_local(data@, initial, pos as int);
        }
        match valid_frame_at(data, pos) {
            Some(header) => {
                let ghost locations = gain_locations(pos as int, header);
                let ghost before = data@;
                proof {
                    lemma_frame_at(initial, pos as int);
                    lemma_scan_takes_frame(initial, pos as int);
                    lemma_adjusted_fields_concat(initial, done, locations, gain_steps as int);
                    lemma_adjusted_frame_footprint(before, pos as int, header, gain_steps as int);
                    assert(gain_fields(initial) =~= (done + locations) + gain_fields_from(
                        initial,
                        pos + header.frame_size,
                    ));
                    assert(gain_byte_offset(pos as int, header, gain_field_count(header) - 1)
                        <= usize::MAX) by {
                        lemma_gain_layout(pos as int, header);
                    }
                }
                adjust_frame(data, pos, &header, gain_steps);
                proof {
                    done = done + locations;
                }
                modified_frames += 1;
                pos = pos + header.frame_size;
            },
            None => {
                pos += 1;
            },
        }
    }
    proof {
        assert(gain_fields_from(initial, pos as int) =~= Seq::<GainLocation>::empty());
        assert(done + Seq::<GainLocation>::empty() =~= done);
    }
    modified_frames
}

} // verus!
