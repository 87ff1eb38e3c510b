//! Bit-level accessor: reads and writes an 8-bit field that begins at any bit
//! of a byte buffer.
//!
//! A field that begins at bit `b` of byte `i` (bit 0 being the most
//! significant) covers the low `8 - b` bits of byte `i` and the high `b` bits
//! of byte `i + 1`. Both bytes together form a 16-bit window, and the field
//! is the eight bits of the window that begin at bit `b`.

use vstd::prelude::*;
use crate::mp3::locator::GainLocation;

verus! {

/// The byte at index `i`, or zero past the end of the buffer.
pub open spec fn byte_or_zero(s: Seq<u8>, i: int) -> u8 {
    if 0 <= i < s.len() {
        s[i]
    } else {
        0
    }
}

/// The 16-bit window that two consecutive bytes form, first byte on top.
pub open spec fn window(first: u8, second: u8) -> u16 {
    ((first as u16) << 8) | (second as u16)
}

/// The eight bits of `w` that begin `bit` bits below its top.
pub open spec fn window_field(w: u16, bit: u8) -> u8 {
    ((w >> ((8 - bit) as u16)) & 0xFF) as u8
}

/// `w` with the eight bits that begin `bit` bits below its top replaced by
/// `value`; every other bit is as in `w`.
pub open spec fn window_with_field(w: u16, bit: u8, value: u8) -> u16 {
    (w & !(0xFFu16 << ((8 - bit) as u16))) | ((value as u16) << ((8 - bit) as u16))
}

/// The weight of the lowest bit of a field that begins `bit` bits below the
/// top of a window: two to the power of `8 - bit`.
pub open spec fn field_unit(bit: u8) -> u16 {
    1u16 << ((8 - bit) as u16)
}

/// The upper byte of a window.
pub open spec fn window_first(w: u16) -> u8 {
    (w >> 8) as u8
}

/// The lower byte of a window.
pub open spec fn window_second(w: u16) -> u8 {
    (w & 0xFF) as u8
}

/// The 8-bit value stored at `loc` in `s`. A byte that the field would reach
/// past the end of the buffer reads as zero, and a location past the end
/// reads as zero altogether.
pub open spec fn read8(s: Seq<u8>, loc: GainLocation) -> u8 {
    let i = loc.byte_offset as int;
    if i >= s.len() {
        0
    } else {
        window_field(window(s[i], byte_or_zero(s, i + 1)), loc.bit_offset)
    }
}

/// The buffer `s` after `value` is stored at `loc`: the window at `loc`
/// receives the value, and the bytes of the window that lie inside the
/// buffer are stored back. A location past the end changes nothing.
pub open spec fn write8(s: Seq<u8>, loc: GainLocation, value: u8) -> Seq<u8> {
    let i = loc.byte_offset as int;
    if i >= s.len() {
        s
    } else {
        let w = window_with_field(window(s[i], byte_or_zero(s, i + 1)), loc.bit_offset, value);
        let stored = s.update(i, window_first(w));
        if i + 1 < s.len() {
            stored.update(i + 1, window_second(w))
        } else {
            stored
        }
    }
}

/// A window splits back into the bytes it was made of.
proof fn lemma_window_bytes(first: u8, second: u8)
    ensures
        window_first(window(first, second)) == first,
        window_second(window(first, second)) == second,
{
    assert(((((first as u16) << 8) | (second as u16)) >> 8) as u8 == first && (((first as u16) << 8
        | (second as u16)) & 0xFF) as u8 == second) by (bit_vector);
}

/// A field that begins at bit 0 is the first byte of the window.
proof fn lemma_aligned_field(first: u8, second: u8, value: u8)
    ensures
        window_field(window(first, second), 0) == first,
        window_with_field(window(first, second), 0, value) == window(value, second),
{
    let w = window(first, second);
    assert(((w >> 8u16) & 0xFF) as u8 == first && (w & !(0xFFu16 << 8u16)) | ((value as u16)
        << 8u16) == ((value as u16) << 8) | (second as u16)) by (bit_vector)
        requires
            w == ((first as u16) << 8) | (second as u16),
    ;
}

/// A field that begins inside a byte, in terms of the two bytes it straddles:
/// reading joins the low bits of the first byte with the high bits of the
/// second, and writing merges the value into both under masks.
proof fn lemma_straddling_field(first: u8, second: u8, bit: u8, value: u8)
    requires
        0 < bit < 8,
    ensures
        window_field(window(first, second), bit) == (first << bit) | (second >> ((8 - bit) as u8)),
        window_field(window(first, 0), bit) == first << bit,
        window_first(window_with_field(window(first, second), bit, value)) == (first & (0xFFu8 << (
        (8 - bit) as u8))) | (value >> bit),
        window_second(window_with_field(window(first, second), bit, value)) == (second & (0xFFu8
            >> bit)) | (value << ((8 - bit) as u8)),
{
    let rest: u8 = (8 - bit) as u8;
    let rest16: u16 = (8 - bit) as u16;
    let w = window(first, second);
    let w0 = window(first, 0);
    assert(((w >> rest16) & 0xFF) as u8 == (first << bit) | (second >> rest) && ((w0 >> rest16)
        & 0xFF) as u8 == first << bit && (((w & !(0xFFu16 << rest16)) | ((value as u16) << rest16))
        >> 8) as u8 == (first & (0xFFu8 << rest)) | (value >> bit) && (((w & !(0xFFu16 << rest16)) | (
    (value as u16) << rest16)) & 0xFF) as u8 == (second & (0xFFu8 >> bit)) | (value << rest))
        by (bit_vector)
        requires
            0 < bit < 8,
            rest == 8 - bit,
            rest16 == 8 - bit,
            w == ((first as u16) << 8) | (second as u16),
            w0 == ((first as u16) << 8) | (0u8 as u16),
    ;
}

/// Reading a field back after storing it gives the stored value; storing the
/// value that a window already holds changes nothing; and of two values
/// stored in turn only the second remains.
proof fn lemma_window_field_laws(w: u16, bit: u8, a: u8, b: u8)
    requires
        bit < 8,
    ensures
        window_field(window_with_field(w, bit, a), bit) == a,
        window_with_field(w, bit, window_field(w, bit)) == w,
        window_with_field(window_with_field(w, bit, a), bit, b) == window_with_field(w, bit, b),
        window(window_first(w), window_second(w)) == w,
{
    let rest: u16 = (8 - bit) as u16;
    let m: u16 = !(0xFFu16 << rest);
    assert(((((w & m) | ((a as u16) << rest)) >> rest) & 0xFF) as u8 == a && (w & m) | (((((w
        >> rest) & 0xFF) as u8) as u16) << rest) == w && ((((w & m) | ((a as u16) << rest)) & m) | (
    (b as u16) << rest)) == (w & m) | ((b as u16) << rest) && ((((w >> 8) as u8) as u16) << 8) | (
    ((w & 0xFF) as u8) as u16) == w) by (bit_vector)
        requires
            bit < 8,
            rest == 8 - bit,
            m == !(0xFFu16 << rest),
    ;
}

/// Storing a field changes no bit of the window outside the field: the
/// `bit` high bits of the first byte and the `8 - bit` low bits of the second
/// stay as they were.
proof fn lemma_window_keeps_other_bits(w: u16, bit: u8, value: u8)
    requires
        bit < 8,
    ensures
        window_first(window_with_field(w, bit, value)) >> ((8 - bit) as u8) == window_first(w) >> ((8
            - bit) as u8),
        window_second(window_with_field(w, bit, value)) & (0xFFu8 >> bit) == window_second(w) & (0xFFu8
            >> bit),
{
    let rest: u8 = (8 - bit) as u8;
    let rest16: u16 = (8 - bit) as u16;
    assert(((((w & !(0xFFu16 << rest16)) | ((value as u16) << rest16)) >> 8) as u8) >> rest == ((w
        >> 8) as u8) >> rest && ((((w & !(0xFFu16 << rest16)) | ((value as u16) << rest16)) & 0xFF) as u8)
        & (0xFFu8 >> bit) == ((w & 0xFF) as u8) & (0xFFu8 >> bit)) by (bit_vector)
        requires
            bit < 8,
            rest == 8 - bit,
            rest16 == 8 - bit,
    ;
}

/// In numbers: a window is its first byte times 256 plus its second, and a
/// field is the window divided by the weight of the field's lowest bit,
/// modulo 256.
pub proof fn lemma_field_in_numbers(first: u8, second: u8, bit: u8)
    requires
        bit < 8,
    ensures
        window(first, second) == first * 256 + second,
        field_unit(bit) == if bit == 0 {
            256int
        } else if bit == 1 {
            128int
        } else if bit == 2 {
            64int
        } else if bit == 3 {
            32int
        } else if bit == 4 {
            16int
        } else if bit == 5 {
            8int
        } else if bit == 6 {
            4int
        } else {
            2int
        },
        window_field(window(first, second), bit) == (window(first, second) / field_unit(bit)) % 256,
{
    let w = window(first, second);
    let unit = field_unit(bit);
    let rest: u16 = (8 - bit) as u16;
    assert(w == (first as u16) * 256 + (second as u16) && ((w >> rest) & 0xFF) as u8 == (w / unit)
        % 256 && (bit == 0 ==> unit == 256) && (bit == 1 ==> unit == 128) && (bit == 2 ==> unit == 64)
        && (bit == 3 ==> unit == 32) && (bit == 4 ==> unit == 16) && (bit == 5 ==> unit == 8) && (bit
        == 6 ==> unit == 4) && (bit == 7 ==> unit == 2)) by (bit_vector)
        requires
            bit < 8,
            rest == 8 - bit,
            unit == 1u16 << rest,
            w == ((first as u16) << 8) | (second as u16),
    ;
}

/// Reads the 8-bit value stored at `loc`.
///
/// A field that begins at bit 0 is the byte at `loc.byte_offset`. Otherwise it
/// joins the low bits of that byte with the high bits of the next one; where
/// the buffer ends after the first byte, the missing bits read as zero. A
/// location past the end of the buffer reads as zero.
pub fn read_gain_at(data: &[u8], loc: &GainLocation) -> (value: u8)
    requires
        loc.wf(),
    ensures
        value == read8(data@, *loc),
{
    let idx = loc.byte_offset;
    if idx >= data.len() {
        return 0;
    }
    if loc.bit_offset == 0 {
        proof {
            lemma_aligned_field(data@[idx as int], byte_or_zero(data@, idx + 1), 0);
        }
        data[idx]
    } else if idx + 1 < data.len() {
        let shift = loc.bit_offset;
        proof {
            lemma_straddling_field(data@[idx as int], data@[idx + 1], shift, 0);
        }
        let high: u8 = data[idx] << shift;
        let low: u8 = data[idx + 1] >> (8 - shift);
        high | low
    } else {
        proof {
            lemma_straddling_field(data@[idx as int], 0, loc.bit_offset, 0);
        }
        data[idx] << loc.bit_offset
    }
}

/// Stores `value` in the 8-bit field at `loc` and leaves every bit outside
/// the field as it was.
///
/// Where the buffer ends after the first byte of the field, only the bits
/// that fit in that byte are stored. A location past the end of the buffer
/// changes nothing. The length of the buffer never changes.
pub fn write_gain_at(data: &mut [u8], loc: &GainLocation, value: u8)
    requires
        loc.wf(),
    ensures
        final(data)@ == write8(old(data)@, *loc, value),
        final(data)@.len() == old(data)@.len(),
{
    let idx = loc.byte_offset;
    if idx >= data.len() {
        return ;
    }
    let ghost before = data@;
    if loc.bit_offset == 0 {
        proof {
            lemma_aligned_field(before[idx as int], byte_or_zero(before, idx + 1), value);
            lemma_window_bytes(value, byte_or_zero(before, idx + 1));
        }
        data[idx] = value;
        assert(data@ =~= write8(before, *loc, value));
    } else if idx + 1 < data.len() {
        let shift = loc.bit_offset;
        let mask_high: u8 = 0xFFu8 << (8 - shift);
        let mask_low: u8 = 0xFFu8 >> shift;
        proof {
            lemma_straddling_field(before[idx as int], before[idx + 1], shift, value);
        }
        data[idx] = (data[idx] & mask_high) | (value >> shift);
        data[idx + 1] = (data[idx + 1] & mask_low) | (value << (8 - shift));
        assert(data@ =~= write8(before, *loc, value));
    } else {
        let shift = loc.bit_offset;
        let mask_high: u8 = 0xFFu8 << (8 - shift);
        proof {
            lemma_straddling_field(before[idx as int], 0, shift, value);
        }
        data[idx] = (data[idx] & mask_high) | (value >> shift);
        assert(data@ =~= write8(before, *loc, value));
    }
}

/// The whole field at `loc` lies inside `s`: its first byte does, and so does
/// the second unless the field ends with the first.
pub open spec fn field_inside(s: Seq<u8>, loc: GainLocation) -> bool {
    &&& loc.wf()
    &&& loc.byte_offset < s.len()
    &&& loc.bit_offset == 0 || loc.byte_offset + 1 < s.len()
}

/// Storing a value changes at most the two bytes of the window, and never
/// the length of the buffer.
pub proof fn lemma_write_footprint(s: Seq<u8>, loc: GainLocation, value: u8)
    ensures
        write8(s, loc, value).len() == s.len(),
        forall|j: int|
            0 <= j < s.len() && j != loc.byte_offset && j != loc.byte_offset + 1 ==> write8(
                s,
                loc,
                value,
            )[j] == s[j],
{
}

/// Storing a value leaves the bits of the window outside the field as they
/// were: the `bit_offset` high bits of the first byte, and the
/// `8 - bit_offset` low bits of the second.
pub proof fn lemma_write_keeps_other_bits(s: Seq<u8>, loc: GainLocation, value: u8)
    requires
        loc.wf(),
        loc.byte_offset < s.len(),
    ensures
        write8(s, loc, value)[loc.byte_offset as int] >> ((8 - loc.bit_offset) as u8)
            == s[loc.byte_offset as int] >> ((8 - loc.bit_offset) as u8),
        loc.byte_offset + 1 < s.len() ==> write8(s, loc, value)[loc.byte_offset + 1] & (0xFFu8
            >> loc.bit_offset) == s[loc.byte_offset + 1] & (0xFFu8 >> loc.bit_offset),
{
    let i = loc.byte_offset as int;
    let w = window(s[i], byte_or_zero(s, i + 1));
    lemma_window_keeps_other_bits(w, loc.bit_offset, value);
    lemma_window_bytes(s[i], byte_or_zero(s, i + 1));
}

/// A value stored in a field that lies inside the buffer is the value read
/// back from it.
pub proof fn lemma_read_after_write(s: Seq<u8>, loc: GainLocation, value: u8)
    requires
        field_inside(s, loc),
    ensures
        read8(write8(s, loc, value), loc) == value,
{
    let i = loc.byte_offset as int;
    let w = window(s[i], byte_or_zero(s, i + 1));
    let w2 = window_with_field(w, loc.bit_offset, value);
    lemma_window_field_laws(w, loc.bit_offset, value, value);
    lemma_window_field_laws(w2, loc.bit_offset, value, value);
    if i + 1 < s.len() {
    } else {
        lemma_aligned_field(s[i], 0, value);
        lemma_window_bytes(value, 0);
        lemma_aligned_field(value, 0, value);
    }
}

/// Storing the value that a field already holds leaves the buffer as it was.
pub proof fn lemma_write_back(s: Seq<u8>, loc: GainLocation)
    requires
        loc.wf(),
    ensures
        write8(s, loc, read8(s, loc)) == s,
{
    let i = loc.byte_offset as int;
    if i < s.len() {
        let w = window(s[i], byte_or_zero(s, i + 1));
        lemma_window_field_laws(w, loc.bit_offset, 0, 0);
        lemma_window_bytes(s[i], byte_or_zero(s, i + 1));
        assert(write8(s, loc, read8(s, loc)) =~= s);
    }
}

/// Of two values stored in turn in a field that lies inside the buffer, only
/// the second remains: the result is as if the first had never been stored.
pub proof fn lemma_write_overwrites(s: Seq<u8>, loc: GainLocation, first: u8, second: u8)
    requires
        field_inside(s, loc),
    ensures
        write8(write8(s, loc, first), loc, second) == write8(s, loc, second),
{
    let i = loc.byte_offset as int;
    let w = window(s[i], byte_or_zero(s, i + 1));
    let w1 = window_with_field(w, loc.bit_offset, first);
    lemma_window_field_laws(w, loc.bit_offset, first, second);
    lemma_window_field_laws(w1, loc.bit_offset, first, second);
    if i + 1 < s.len() {
    } else {
        lemma_aligned_field(s[i], 0, first);
        lemma_aligned_field(s[i], 0, second);
        lemma_window_bytes(first, 0);
        lemma_aligned_field(first, 0, second);
    }
    assert(write8(write8(s, loc, first), loc, second) =~= write8(s, loc, second));
}

/// What is read from a field, and what storing a value leaves in the two
/// bytes of its window, depend on those two bytes alone.
pub proof fn lemma_field_is_local(s: Seq<u8>, t: Seq<u8>, loc: GainLocation, value: u8)
    requires
        s.len() == t.len(),
        loc.byte_offset < s.len(),
        s[loc.byte_offset as int] == t[loc.byte_offset as int],
        loc.byte_offset + 1 < s.len() ==> s[loc.byte_offset + 1] == t[loc.byte_offset + 1],
    ensures
        read8(s, loc) == read8(t, loc),
        write8(s, loc, value)[loc.byte_offset as int] == write8(t, loc, value)[loc.byte_offset as int],
        loc.byte_offset + 1 < s.len() ==> write8(s, loc, value)[loc.byte_offset + 1] == write8(
            t,
            loc,
            value,
        )[loc.byte_offset + 1],
{
}

} // verus!
