use headroom::loudnorm::{
    find_byte_from, find_bytes, find_fallback_json, find_marked_json, matches_at, object_end,
    rfind_byte_before, rfind_bytes,
};

/// The report as the caller reads it: the marked object if there is one,
/// whatever it parses to, and else the fallback object if it parses.
fn extract(stderr: &str) -> Result<serde_json::Value, String> {
    if let Some((start, end)) = find_marked_json(stderr.as_bytes()) {
        return serde_json::from_str(&stderr[start..end]).map_err(|e| e.to_string());
    }
    if let Some((start, end)) = find_fallback_json(stderr.as_bytes()) {
        if let Ok(value) = serde_json::from_str(&stderr[start..end]) {
            return Ok(value);
        }
    }
    Err(String::from("No loudnorm data found in ffmpeg output."))
}

#[test]
fn test_extract_loudnorm_json_with_traktor_metadata() {
    let stderr = r#"        encoder         : LAME3.100
        id3v2_priv.TRAKTOR4: DMRT\xf4{\x00\x00\x02\x00\x00\x00RDH 0\x00\x00\x00\x03\x00\x00\x00SKHC\x04\x00\x00\x00\x00\x00\x00\x00i?"\x00DOMF\x04\x00\x00\x00\x00\x00\x00\x00\x14\x0a\xe8\x07NSRV\x04\x00\x00\x00\x00\x00\x00\x00\x07\x00\x00\x00ATAD\xac{\x00\x00\x17\x00\x00\x00BDNA\x04\
        encoder         : Lavf62.3.100
    [Parsed_loudnorm_0 @ 0xc8f448a80] N/A speed=30.3x elapsed=0:00:10.57
    {
    	"input_i" : "-6.83",
    	"input_tp" : "2.55",
    	"input_lra" : "4.40",
    	"input_thresh" : "-16.87",
    	"output_i" : "-23.34",
    	"output_tp" : "-11.73",
    	"output_lra" : "4.30",
    	"output_thresh" : "-33.37",
    	"normalization_type" : "dynamic",
    	"target_offset" : "-0.66"
    }
    [out#0/null @ 0xc8f448300] video:0KiB audio:244683KiB"#;

    let result = extract(stderr);

    assert!(result.is_ok(), "Should successfully parse loudnorm JSON");
    let loudnorm = result.unwrap();
    assert_eq!(loudnorm["input_i"], "-6.83");
    assert_eq!(loudnorm["input_tp"], "2.55");
}

#[test]
fn test_extract_loudnorm_json_standard() {
    let stderr = r#"    [Parsed_loudnorm_0 @ 0x12345678]
    {
    	"input_i" : "-14.00",
    	"input_tp" : "-1.00",
    	"input_lra" : "5.00",
    	"input_thresh" : "-24.00",
    	"output_i" : "-24.00",
    	"output_tp" : "-2.00",
    	"output_lra" : "5.00",
    	"output_thresh" : "-34.00",
    	"normalization_type" : "dynamic",
    	"target_offset" : "0.00"
    }"#;

    let result = extract(stderr);

    assert!(result.is_ok());
    let loudnorm = result.unwrap();
    assert_eq!(loudnorm["input_i"], "-14.00");
    assert_eq!(loudnorm["input_tp"], "-1.00");
}

#[test]
fn test_extract_loudnorm_json_fallback() {
    let stderr = r#"Some other output
    {
    	"input_i" : "-10.00",
    	"input_tp" : "0.50",
    	"input_lra" : "3.00",
    	"input_thresh" : "-20.00",
    	"output_i" : "-23.00",
    	"output_tp" : "-10.00",
    	"output_lra" : "3.00",
    	"output_thresh" : "-33.00",
    	"normalization_type" : "dynamic",
    	"target_offset" : "-1.00"
    }
    More output"#;

    assert_eq!(find_marked_json(stderr.as_bytes()), None);
    let result = extract(stderr);

    assert!(result.is_ok());
    let loudnorm = result.unwrap();
    assert_eq!(loudnorm["input_i"], "-10.00");
    assert_eq!(loudnorm["input_tp"], "0.50");
}

#[test]
fn marked_json_is_the_object_behind_the_marker() {
    let stderr = b"x{1} [Parsed_loudnorm_0 @ 0x1] n/a {\"a\":{\"b\":1}} tail {2}";
    let (start, end) = find_marked_json(stderr).unwrap();
    assert_eq!(&stderr[start..end], b"{\"a\":{\"b\":1}}");
    assert_eq!((start, end), (35, 48));
}

#[test]
fn the_first_marker_counts() {
    let stderr = b"[Parsed_loudnorm_0 @ a]{1}[Parsed_loudnorm_0 @ b]{2}";
    let (start, end) = find_marked_json(stderr).unwrap();
    assert_eq!(&stderr[start..end], b"{1}");
}

#[test]
fn marked_json_needs_marker_brace_and_balance() {
    assert_eq!(find_marked_json(b""), None);
    assert_eq!(find_marked_json(b"{\"input_i\":1}"), None);
    assert_eq!(find_marked_json(b"{1} [Parsed_loudnorm_0 @ 0x1] no object"), None);
    assert_eq!(find_marked_json(b"[Parsed_loudnorm_0 @ 0x1] {\"a\":{\"b\":1}"), None);
    assert_eq!(find_marked_json(b"[Parsed_loudnorm_0 "), None);
}

#[test]
fn fallback_json_is_the_object_around_the_last_key() {
    let stderr = b"{\"input_i\":1} mid {\"x\":2, \"input_i\":{\"y\":3}} tail {4}";
    let (start, end) = find_fallback_json(stderr).unwrap();
    assert_eq!(&stderr[start..end], b"{\"x\":2, \"input_i\":{\"y\":3}}");
}

#[test]
fn fallback_json_needs_key_brace_and_balance() {
    assert_eq!(find_fallback_json(b""), None);
    assert_eq!(find_fallback_json(b"{\"input_tp\":1}"), None);
    assert_eq!(find_fallback_json(b"\"input_i\":1 {2}"), None);
    assert_eq!(find_fallback_json(b"{\"input_i\":1"), None);
}

#[test]
fn byte_searches() {
    assert_eq!(find_bytes(b"abcabc", b"bc"), Some(1));
    assert_eq!(rfind_bytes(b"abcabc", b"bc"), Some(4));
    assert_eq!(find_bytes(b"abcabc", b"cb"), None);
    assert_eq!(rfind_bytes(b"abcabc", b"cb"), None);
    assert_eq!(find_bytes(b"abc", b"abcd"), None);
    assert_eq!(rfind_bytes(b"abc", b"abcd"), None);
    assert_eq!(find_bytes(b"abc", b"abc"), Some(0));
    assert_eq!(rfind_bytes(b"abc", b"abc"), Some(0));
    assert_eq!(find_bytes(b"abc", b""), Some(0));
    assert_eq!(rfind_bytes(b"abc", b""), Some(3));
    assert_eq!(find_bytes(b"", b""), Some(0));
    assert!(matches_at(b"abcabc", b"ca", 2));
    assert!(!matches_at(b"abcabc", b"ca", 3));
    assert!(!matches_at(b"abcabc", b"bc", 5));
    assert!(!matches_at(b"abc", b"a", usize::MAX));
    assert!(matches_at(b"abc", b"", 3));
    assert!(!matches_at(b"abc", b"", 4));
}

#[test]
fn single_byte_searches() {
    assert_eq!(find_byte_from(b"a{b{c", 0, b'{'), Some(1));
    assert_eq!(find_byte_from(b"a{b{c", 1, b'{'), Some(1));
    assert_eq!(find_byte_from(b"a{b{c", 2, b'{'), Some(3));
    assert_eq!(find_byte_from(b"a{b{c", 4, b'{'), None);
    assert_eq!(find_byte_from(b"a{b{c", 9, b'{'), None);
    assert_eq!(rfind_byte_before(b"a{b{c", 5, b'{'), Some(3));
    assert_eq!(rfind_byte_before(b"a{b{c", 3, b'{'), Some(1));
    assert_eq!(rfind_byte_before(b"a{b{c", 1, b'{'), None);
    assert_eq!(rfind_byte_before(b"a{b{c", 0, b'{'), None);
}

#[test]
fn object_ends_where_the_braces_balance() {
    assert_eq!(object_end(b"{}", 0), Some(2));
    assert_eq!(object_end(b"{a{b}c}d}", 0), Some(7));
    assert_eq!(object_end(b"{a{b}c}d}", 2), Some(5));
    assert_eq!(object_end(b"{a{b}c", 0), None);
    assert_eq!(object_end(b"a{b}", 0), None);
    assert_eq!(object_end(b"}{", 0), None);
    assert_eq!(object_end(b"{}", 2), None);
    assert_eq!(object_end(b"{}", 7), None);
}
