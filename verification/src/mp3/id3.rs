//! ID3 tag skipper: finds where the audio begins behind a leading ID3v2 tag.

use vstd::prelude::*;

verus! {

/// Length in bytes of the ID3v2 tag header.
pub const ID3_HEADER_SIZE: usize = 10;

/// Whether `s` begins with an ID3v2 tag header: ten bytes or more, the first
/// three of them the ASCII letters `ID3`.
pub open spec fn has_id3_tag(s: Seq<u8>) -> bool {
    s.len() >= 10 && s[0] == 0x49 && s[1] == 0x44 && s[2] == 0x33
}

/// The number that four bytes encode as a syncsafe integer: seven bits from
/// each byte, the first byte being the most significant.
pub open spec fn syncsafe(b0: u8, b1: u8, b2: u8, b3: u8) -> int {
    (b0 as int % 128) * 0x20_0000 + (b1 as int % 128) * 0x4000 + (b2 as int % 128) * 0x80 + (b3 as int
        % 128)
}

/// Offset of the first byte behind the ID3v2 tag of `s`: ten bytes of tag
/// header plus the tag size that bytes 6 to 9 encode, or zero where `s` does
/// not begin with a tag.
pub open spec fn audio_start(s: Seq<u8>) -> int {
    if has_id3_tag(s) {
        ID3_HEADER_SIZE + syncsafe(s[6], s[7], s[8], s[9])
    } else {
        0
    }
}

/// The shifts and masks that decode a syncsafe integer give the number that
/// its seven-bit groups stand for.
proof fn lemma_syncsafe_bits(b0: u8, b1: u8, b2: u8, b3: u8)
    ensures
        (((b0 as u32 & 0x7F) << 21) | ((b1 as u32 & 0x7F) << 14) | ((b2 as u32 & 0x7F) << 7) | (b3 as u32
            & 0x7F)) as int == syncsafe(b0, b1, b2, b3),
        syncsafe(b0, b1, b2, b3) < 0x1000_0000,
{
    assert((((b0 as u32 & 0x7F) << 21) | ((b1 as u32 & 0x7F) << 14) | ((b2 as u32 & 0x7F) << 7) | (
    b3 as u32 & 0x7F)) == (b0 as u32 % 128) * 0x20_0000 + (b1 as u32 % 128) * 0x4000 + (b2 as u32
        % 128) * 0x80 + (b3 as u32 % 128)) by (bit_vector);
}

/// Skips an ID3v2 tag at the beginning of `data` and returns the offset of
/// the first audio frame: `10 + size` where the data begin with a tag, zero
/// where they do not. The offset may lie past the end of a truncated file.
pub fn skip_id3v2(data: &[u8]) -> (offset: usize)
    ensures
        offset == audio_start(data@),
{
    if data.len() < ID3_HEADER_SIZE {
        return 0;
    }
    // The signature: ASCII "ID3".
    if data[0] != 0x49 || data[1] != 0x44 || data[2] != 0x33 {
        return 0;
    }
    proof {
        lemma_syncsafe_bits(data@[6], data@[7], data@[8], data@[9]);
    }
    // The size is a syncsafe integer: seven significant bits per byte.
    let size: u32 = ((data[6] as u32 & 0x7F) << 21) | ((data[7] as u32 & 0x7F) << 14) | ((data[8] as u32
        & 0x7F) << 7) | (data[9] as u32 & 0x7F);
    ID3_HEADER_SIZE + size as usize
}

} // verus!
