//! Finds the loudness report in the diagnostic output of ffmpeg.
//!
//! The `loudnorm` filter prints its measurements as a JSON object behind a
//! line that begins with `[Parsed_loudnorm_0 @`. Metadata that ffmpeg echoes
//! before it may hold braces of its own, so the first brace of the output is
//! no reliable start. The functions here work on the bytes of the output and
//! return the byte range of the object; reading the JSON is left to the
//! caller. The bytes searched for are ASCII, so every offset found lies on a
//! character boundary of UTF-8 text.

use vstd::prelude::*;

verus! {

/// The marker that precedes the report: the ASCII bytes of `[Parsed_loudnorm_0 @`.
pub const LOUDNORM_MARKER: [u8; 20] = [
    0x5B, 0x50, 0x61, 0x72, 0x73, 0x65, 0x64, 0x5F, 0x6C, 0x6F,
    0x75, 0x64, 0x6E, 0x6F, 0x72, 0x6D, 0x5F, 0x30, 0x20, 0x40,
];

/// The key that every report holds: the ASCII bytes of `"input_i"`, quotes included.
pub const INPUT_I_KEY: [u8; 9] = [0x22, 0x69, 0x6E, 0x70, 0x75, 0x74, 0x5F, 0x69, 0x22];

/// An opening brace.
pub const OPEN_BRACE: u8 = 0x7B;

/// A closing brace.
pub const CLOSE_BRACE: u8 = 0x7D;

/// Whether `needle` occurs in `s` at index `i`.
pub open spec fn occurs_at(s: Seq<u8>, needle: Seq<u8>, i: int) -> bool {
    0 <= i && i + needle.len() <= s.len() && s.subrange(i, i + needle.len()) == needle
}

/// Whether `i` is where `needle` first occurs in `s`.
pub open spec fn is_first_occurrence(s: Seq<u8>, needle: Seq<u8>, i: int) -> bool {
    occurs_at(s, needle, i) && forall|j: int| j < i ==> !occurs_at(s, needle, j)
}

/// Whether `i` is where `needle` last occurs in `s`.
pub open spec fn is_last_occurrence(s: Seq<u8>, needle: Seq<u8>, i: int) -> bool {
    occurs_at(s, needle, i) && forall|j: int| j > i ==> !occurs_at(s, needle, j)
}

/// Whether `i` is the first index from `from` on at which `s` holds `byte`.
pub open spec fn is_first_byte_from(s: Seq<u8>, from: int, byte: u8, i: int) -> bool {
    0 <= from <= i < s.len() && s[i] == byte && forall|j: int| from <= j < i ==> s[j] != byte
}

/// Whether `i` is the last index in front of `before` at which `s` holds `byte`.
pub open spec fn is_last_byte_before(s: Seq<u8>, before: int, byte: u8, i: int) -> bool {
    0 <= i < before <= s.len() && s[i] == byte && forall|j: int| i < j < before ==> s[j] != byte
}

/// Opening braces less closing braces among the bytes of `s` from `from` up
/// to, but not including, `to`.
pub open spec fn brace_depth(s: Seq<u8>, from: int, to: int) -> int
    decreases to - from,
{
    if to <= from {
        0
    } else {
        brace_depth(s, from, to - 1) + if s[to - 1] == OPEN_BRACE {
            1int
        } else if s[to - 1] == CLOSE_BRACE {
            -1int
        } else {
            0int
        }
    }
}

/// Whether the closing brace at `end` balances the braces from `start` on.
pub open spec fn closes_at(s: Seq<u8>, start: int, end: int) -> bool {
    start <= end < s.len() && s[end] == CLOSE_BRACE && brace_depth(s, start, end + 1) == 0
}

/// Whether `start` to `end` is the object that opens at `start`: an opening
/// brace at `start`, and at `end - 1` the first closing brace that balances
/// the braces from `start` on.
pub open spec fn is_object(s: Seq<u8>, start: int, end: int) -> bool {
    &&& 0 <= start < end <= s.len()
    &&& s[start] == OPEN_BRACE
    &&& closes_at(s, start, end - 1)
    &&& forall|j: int| start <= j < end - 1 ==> !closes_at(s, start, j)
}

/// Whether `start` to `end` is the report that the marker announces: the
/// object that opens at the first opening brace behind the first occurrence
/// of the marker.
pub open spec fn is_marked_json(s: Seq<u8>, start: int, end: int) -> bool {
    exists|marker: int|
        #![trigger occurs_at(s, LOUDNORM_MARKER@, marker)]
        is_first_occurrence(s, LOUDNORM_MARKER@, marker) && is_first_byte_from(
            s,
            marker,
            OPEN_BRACE,
            start,
        ) && is_object(s, start, end)
}

/// Whether `start` to `end` is the report as found without the marker: the
/// object that opens at the last opening brace in front of the last
/// occurrence of the key `"input_i"`.
pub open spec fn is_fallback_json(s: Seq<u8>, start: int, end: int) -> bool {
    exists|key: int|
        #![trigger occurs_at(s, INPUT_I_KEY@, key)]
        is_last_occurrence(s, INPUT_I_KEY@, key) && is_last_byte_before(s, key, OPEN_BRACE, start)
            && is_object(s, start, end)
}

/// Whether `needle` occurs in `haystack` at index `i`.
pub fn matches_at(haystack: &[u8], needle: &[u8], i: usize) -> (found: bool)
    ensures
        found == occurs_at(haystack@, needle@, i as int),
{
    if i > haystack.len() || needle.len() > haystack.len() - i {
        return false;
    }
    let mut k: usize = 0;
    while k < needle.len()
        invariant
            k <= needle@.len(),
            i + needle@.len() <= haystack@.len() <= usize::MAX,
            forall|j: int| 0 <= j < k ==> haystack@[i + j] == needle@[j],
        decreases needle@.len() - k,
    {
        if haystack[i + k] != needle[k] {
            assert(haystack@.subrange(i as int, i + needle@.len())[k as int] != needle@[k as int]);
            return false;
        }
        k += 1;
    }
    assert(haystack@.subrange(i as int, i + needle@.len()) =~= needle@);
    true
}

/// Finds the first occurrence of `needle` in `haystack`.
pub fn find_bytes(haystack: &[u8], needle: &[u8]) -> (found: Option<usize>)
    ensures
        match found {
            Some(i) => is_first_occurrence(haystack@, needle@, i as int),
            None => forall|i: int| !occurs_at(haystack@, needle@, i),
        },
{
    if needle.len() > haystack.len() {
        return None;
    }
    let last = haystack.len() - needle.len();
    let mut i: usize = 0;
    loop
        invariant
            i <= last,
            last == haystack@.len() - needle@.len(),
            forall|j: int| j < i ==> !occurs_at(haystack@, needle@, j),
        decreases last - i,
    {
        if matches_at(haystack, needle, i) {
            return Some(i);
        }
        if i == last {
            return None;
        }
        i += 1;
    }
}

/// Finds the last occurrence of `needle` in `haystack`.
pub fn rfind_bytes(haystack: &[u8], needle: &[u8]) -> (found: Option<usize>)
    ensures
        match found {
            Some(i) => is_last_occurrence(haystack@, needle@, i as int),
            None => forall|i: int| !occurs_at(haystack@, needle@, i),
        },
{
    if needle.len() > haystack.len() {
        return None;
    }
    let mut i: usize = haystack.len() - needle.len();
    loop
        invariant
            i <= haystack@.len() - needle@.len(),
            forall|j: int| j > i ==> !occurs_at(haystack@, needle@, j),
        decreases i,
    {
        if matches_at(haystack, needle, i) {
            return Some(i);
        }
        if i == 0 {
            return None;
        }
        i -= 1;
    }
}

/// Finds the first index from `from` on at which `data` holds `byte`.
pub fn find_byte_from(data: &[u8], from: usize, byte: u8) -> (found: Option<usize>)
    ensures
        match found {
            Some(i) => is_first_byte_from(data@, from as int, byte, i as int),
            None => forall|i: int| from <= i < data@.len() ==> data@[i] != byte,
        },
{
    let mut i: usize = from;
    while i < data.len()
        invariant
            from <= i,
            forall|j: int| from <= j < i && j < data@.len() ==> data@[j] != byte,
        decreases data@.len() - i,
    {
        if data[i] == byte {
            return Some(i);
        }
        i += 1;
    }
    None
}

/// Finds the last index in front of `before` at which `data` holds `byte`.
pub fn rfind_byte_before(data: &[u8], before: usize, byte: u8) -> (found: Option<usize>)
    requires
        before <= data@.len(),
    ensures
        match found {
            Some(i) => is_last_byte_before(data@, before as int, byte, i as int),
            None => forall|i: int| 0 <= i < before ==> data@[i] != byte,
        },
{
    let mut i: usize = before;
    while i > 0
        invariant
            i <= before <= data@.len(),
            forall|j: int| i <= j < before ==> data@[j] != byte,
        decreases i,
    {
        i -= 1;
        if data[i] == byte {
            return Some(i);
        }
    }
    None
}

/// Finds the end of the object that opens at `start`: one past the first
/// closing brace that balances the braces from `start` on. There is none
/// where `start` holds no opening brace or the braces never balance.
pub fn object_end(data: &[u8], start: usize) -> (found: Option<usize>)
    ensures
        match found {
            Some(end) => is_object(data@, start as int, end as int),
            None => forall|end: int| !is_object(data@, start as int, end),
        },
{
    if start >= data.len() || data[start] != OPEN_BRACE {
        return None;
    }
    let mut depth: usize = 1;
    let mut i: usize = start + 1;
    assert(brace_depth(data@, start as int, start + 1) == 1) by {
        assert(brace_depth(data@, start as int, start as int) == 0);
    }
    while i < data.len()
        invariant
            start < i <= data@.len(),
            data@[start as int] == OPEN_BRACE,
            depth == brace_depth(data@, start as int, i as int),
            1 <= depth <= i - start,
            forall|j: int| start <= j < i ==> !closes_at(data@, start as int, j),
        decreases data@.len() - i,
    {
        if data[i] == OPEN_BRACE {
            depth += 1;
        } else if data[i] == CLOSE_BRACE {
            depth -= 1;
            if depth == 0 {
                return Some(i + 1);
            }
        }
        i += 1;
    }
    None
}

/// Finds the report behind the marker; see [`is_marked_json`]. The range
/// begins at the opening brace and ends behind the closing one.
pub fn find_marked_json(stderr: &[u8]) -> (found: Option<(usize, usize)>)
    ensures
        match found {
            Some((start, end)) => is_marked_json(stderr@, start as int, end as int),
            None => forall|start: int, end: int| !is_marked_json(stderr@, start, end),
        },
{
    let marker = match find_bytes(stderr, LOUDNORM_MARKER.as_slice()) {
        Some(marker) => marker,
        None => {
            return None;
        },
    };
    let start = match find_byte_from(stderr, marker, OPEN_BRACE) {
        Some(start) => start,
        None => {
            return None;
        },
    };
    match object_end(stderr, start) {
        Some(end) => Some((start, end)),
        None => None,
    }
}

/// Finds the report without the marker; see [`is_fallback_json`]. The range
/// begins at the opening brace and ends behind the closing one.
pub fn find_fallback_json(stderr: &[u8]) -> (found: Option<(usize, usize)>)
    ensures
        match found {
            Some((start, end)) => is_fallback_json(stderr@, start as int, end as int),
            None => forall|start: int, end: int| !is_fallback_json(stderr@, start, end),
        },
{
    let key = match rfind_bytes(stderr, INPUT_I_KEY.as_slice()) {
        Some(key) => key,
        None => {
            return None;
        },
    };
    let start = match rfind_byte_before(stderr, key, OPEN_BRACE) {
        Some(start) => start,
        None => {
            return None;
        },
    };
    match object_end(stderr, start) {
        Some(end) => Some((start, end)),
        None => None,
    }
}

} // verus!
