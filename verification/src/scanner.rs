//! Which files count as audio, told by the extension of their name.
//!
//! The functions here take the extension as `Path::extension` yields it,
//! converted to a string: `None` for a name without one.

use vstd::prelude::*;
use vstd::string::StrSliceExecFns;
use vstd::string::StringExecFns;

verus! {

/// Extensions of lossless formats.
pub const LOSSLESS_EXTENSIONS: [&'static str; 4] = ["flac", "aiff", "aif", "wav"];

/// Extensions of MP3 files.
pub const MP3_EXTENSIONS: [&'static str; 1] = ["mp3"];

/// Extensions of AAC files.
pub const AAC_EXTENSIONS: [&'static str; 3] = ["m4a", "aac", "mp4"];

/// The lowercase equivalent of a string, as `str::to_lowercase` computes it.
pub uninterp spec fn lowercase_of(s: Seq<char>) -> Seq<char>;

/// `str::to_lowercase`: the result is the lowercase equivalent of `s`, a
/// function of the characters of `s` alone.
#[verifier::external_body]
pub(crate) fn lowercase(s: &str) -> (lower: String)
    ensures
        lower@ == lowercase_of(s@),
{
    s.to_lowercase()
}

/// Whether `ext` is one of `extensions`.
pub open spec fn listed(extensions: Seq<&'static str>, ext: Seq<char>) -> bool {
    exists|i: int| 0 <= i < extensions.len() && (#[trigger] extensions[i])@ == ext
}

/// Whether a name with this extension has one of `extensions`, letter case
/// aside. A name without an extension has none of them.
pub open spec fn extension_listed(extension: Option<&str>, extensions: Seq<&'static str>) -> bool {
    match extension {
        Some(ext) => listed(extensions, lowercase_of(ext@)),
        None => false,
    }
}

/// All supported extensions: lossless, then MP3, then AAC.
pub open spec fn supported_extensions() -> Seq<&'static str> {
    LOSSLESS_EXTENSIONS@ + MP3_EXTENSIONS@ + AAC_EXTENSIONS@
}

/// The extensions of all supported formats: the lossless ones, then MP3,
/// then AAC.
pub fn get_supported_extensions() -> (exts: Vec<&'static str>)
    ensures
        exts@ == supported_extensions(),
{
    let mut exts: Vec<&'static str> = Vec::new();
    let mut i: usize = 0;
    while i < 4
        invariant
            i <= 4,
            exts@ == LOSSLESS_EXTENSIONS@.take(i as int),
        decreases 4 - i,
    {
        exts.push(LOSSLESS_EXTENSIONS[i]);
        assert(exts@ =~= LOSSLESS_EXTENSIONS@.take(i + 1));
        i += 1;
    }
    exts.push(MP3_EXTENSIONS[0]);
    let mut j: usize = 0;
    while j < 3
        invariant
            j <= 3,
            exts@ == LOSSLESS_EXTENSIONS@ + MP3_EXTENSIONS@ + AAC_EXTENSIONS@.take(j as int),
        decreases 3 - j,
    {
        exts.push(AAC_EXTENSIONS[j]);
        assert(exts@ =~= LOSSLESS_EXTENSIONS@ + MP3_EXTENSIONS@ + AAC_EXTENSIONS@.take(j + 1));
        j += 1;
    }
    assert(AAC_EXTENSIONS@.take(3) =~= AAC_EXTENSIONS@);
    exts
}

/// Whether `extension`, taken as it stands, is one of `extensions`.
pub fn is_listed(extension: &str, extensions: &[&'static str]) -> (found: bool)
    ensures
        found == listed(extensions@, extension@),
{
    let wanted = String::from_str(extension);
    let mut i: usize = 0;
    while i < extensions.len()
        invariant
            i <= extensions@.len(),
            wanted@ == extension@,
            forall|k: int| 0 <= k < i ==> (#[trigger] extensions@[k])@ != extension@,
        decreases extensions@.len() - i,
    {
        let candidate = String::from_str(extensions[i]);
        if wanted == candidate {
            assert(extensions@[i as int]@ == extension@);
            return true;
        }
        i += 1;
    }
    false
}

/// Whether the extension, in lowercase, is one of `extensions`. A name
/// without an extension matches none.
pub fn has_extension(extension: Option<&str>, extensions: &[&'static str]) -> (found: bool)
    ensures
        found == extension_listed(extension, extensions@),
{
    match extension {
        Some(ext) => {
            let lower = lowercase(ext);
            is_listed(lower.as_str(), extensions)
        },
        None => false,
    }
}

/// Whether the extension is that of an MP3 file.
pub fn is_mp3(extension: Option<&str>) -> (found: bool)
    ensures
        found == extension_listed(extension, MP3_EXTENSIONS@),
{
    has_extension(extension, MP3_EXTENSIONS.as_slice())
}

/// Whether the extension is that of a lossless format.
pub fn is_lossless(extension: Option<&str>) -> (found: bool)
    ensures
        found == extension_listed(extension, LOSSLESS_EXTENSIONS@),
{
    has_extension(extension, LOSSLESS_EXTENSIONS.as_slice())
}

/// Whether the extension is that of an AAC file.
pub fn is_aac(extension: Option<&str>) -> (found: bool)
    ensures
        found == extension_listed(extension, AAC_EXTENSIONS@),
{
    has_extension(extension, AAC_EXTENSIONS.as_slice())
}

/// Whether a file name begins with `._`, as the AppleDouble companions that
/// macOS leaves beside files do.
pub open spec fn is_apple_double(file_name: Seq<char>) -> bool {
    file_name.len() >= 2 && file_name[0] == '.' && file_name[1] == '_'
}

/// Whether a directory scan keeps a file with this name and extension: the
/// name is not that of an AppleDouble file, and the extension is a supported
/// one.
pub fn is_audio_file_name(file_name: &str, extension: Option<&str>) -> (keep: bool)
    ensures
        keep == (!is_apple_double(file_name@) && extension_listed(extension, supported_extensions())),
{
    let length = file_name.unicode_len();
    if length >= 2 && file_name.get_char(0) == '.' && file_name.get_char(1) == '_' {
        return false;
    }
    let supported = get_supported_extensions();
    has_extension(extension, supported.as_slice())
}

} // verus!
