use headroom::scanner::{
    get_supported_extensions, has_extension, is_aac, is_audio_file_name, is_listed, is_lossless,
    is_mp3,
};

#[test]
fn supported_extensions_in_order() {
    assert_eq!(
        get_supported_extensions(),
        vec!["flac", "aiff", "aif", "wav", "mp3", "m4a", "aac", "mp4"]
    );
}

#[test]
fn mp3_extension() {
    assert!(is_mp3(Some("mp3")));
    assert!(!is_mp3(Some("flac")));
    assert!(!is_mp3(Some("mp")));
    assert!(!is_mp3(Some("mp3 ")));
    assert!(!is_mp3(Some("")));
    assert!(!is_mp3(None));
}

#[test]
fn letter_case_does_not_count() {
    assert!(is_mp3(Some("MP3")));
    assert!(is_mp3(Some("Mp3")));
    assert!(is_lossless(Some("FLAC")));
    assert!(is_lossless(Some("Wav")));
    assert!(is_aac(Some("M4A")));
}

#[test]
fn lossless_extensions() {
    for ext in ["flac", "aiff", "aif", "wav"] {
        assert!(is_lossless(Some(ext)));
        assert!(!is_mp3(Some(ext)));
        assert!(!is_aac(Some(ext)));
    }
    assert!(!is_lossless(Some("mp3")));
    assert!(!is_lossless(Some("ogg")));
    assert!(!is_lossless(None));
}

#[test]
fn aac_extensions() {
    for ext in ["m4a", "aac", "mp4"] {
        assert!(is_aac(Some(ext)));
        assert!(!is_mp3(Some(ext)));
        assert!(!is_lossless(Some(ext)));
    }
    assert!(!is_aac(Some("mp3")));
    assert!(!is_aac(None));
}

#[test]
fn has_extension_searches_the_given_list() {
    assert!(has_extension(Some("OGG"), &["ogg", "opus"]));
    assert!(has_extension(Some("opus"), &["ogg", "opus"]));
    assert!(!has_extension(Some("mp3"), &["ogg", "opus"]));
    assert!(!has_extension(Some("ogg"), &[]));
    assert!(!has_extension(None, &["ogg"]));
    // The list is compared as it stands: only the extension is lowercased.
    assert!(!has_extension(Some("ogg"), &["OGG"]));
}

#[test]
fn scan_keeps_audio_files() {
    assert!(is_audio_file_name("track.mp3", Some("mp3")));
    assert!(is_audio_file_name("Track.FLAC", Some("FLAC")));
    assert!(is_audio_file_name("a.m4a", Some("m4a")));
    assert!(is_audio_file_name(".hidden.wav", Some("wav")));
    assert!(is_audio_file_name("_.mp3", Some("mp3")));
    assert!(!is_audio_file_name("notes.txt", Some("txt")));
    assert!(!is_audio_file_name("README", None));
}

#[test]
fn scan_skips_apple_double_files() {
    assert!(!is_audio_file_name("._track.mp3", Some("mp3")));
    assert!(!is_audio_file_name("._", Some("mp3")));
    assert!(!is_audio_file_name("._x.flac", Some("flac")));
}

#[test]
fn listed_extensions_are_compared_as_they_stand() {
    assert!(is_listed("mp3", &["flac", "mp3"]));
    assert!(is_listed("flac", &["flac", "mp3"]));
    assert!(!is_listed("MP3", &["flac", "mp3"]));
    assert!(!is_listed("mp", &["flac", "mp3"]));
    assert!(!is_listed("mp3", &[]));
    assert!(is_listed("", &[""]));
}
