use headroom::mp3::{parse_header, ChannelMode, FrameHeader, MpegVersion};

fn parsed(bytes: [u8; 4]) -> FrameHeader {
    parse_header(&bytes).expect("header should parse")
}

#[test]
fn test_parse_valid_header() {
    // Valid MPEG1 Layer 3, 128kbps, 44100Hz, stereo
    let header = [0xFF, 0xFB, 0x90, 0x00];
    let parsed = parse_header(&header);
    assert!(parsed.is_some());
    let h = parsed.unwrap();
    assert_eq!(h.version, MpegVersion::Mpeg1);
    assert_eq!(h.layer, 3);
    assert_eq!(h.bitrate_kbps, 128);
    assert_eq!(h.sample_rate, 44100);
}

#[test]
fn test_parse_invalid_header() {
    // Not a valid sync
    assert!(parse_header(&[0x00, 0x00, 0x00, 0x00]).is_none());
    // Valid sync but Layer I
    assert!(parse_header(&[0xFF, 0xFF, 0x90, 0x00]).is_none());
}

#[test]
fn valid_header_is_stereo_without_crc() {
    let h = parsed([0xFF, 0xFB, 0x90, 0x00]);
    assert_eq!(h.channel_mode, ChannelMode::Stereo);
    assert!(!h.has_crc);
    assert!(!h.padding);
    assert_eq!(h.frame_size, 417);
    assert_eq!(h.granule_count(), 2);
    assert_eq!(h.side_info_offset(), 4);
}

#[test]
fn padding_adds_one_byte() {
    let h = parsed([0xFF, 0xFB, 0x92, 0x00]);
    assert!(h.padding);
    assert_eq!(h.frame_size, 418);
}

#[test]
fn cleared_protection_bit_means_crc() {
    let h = parsed([0xFF, 0xFA, 0x90, 0x00]);
    assert!(h.has_crc);
    assert_eq!(h.side_info_offset(), 6);
}

#[test]
fn short_input_is_rejected() {
    assert!(parse_header(&[]).is_none());
    assert!(parse_header(&[0xFF, 0xFB, 0x90]).is_none());
}

#[test]
fn longer_input_is_parsed_from_its_first_four_bytes() {
    let h = parse_header(&[0xFF, 0xFB, 0x90, 0x00, 0x12, 0x34]).unwrap();
    assert_eq!(h, parsed([0xFF, 0xFB, 0x90, 0x00]));
}

#[test]
fn sync_needs_all_eleven_bits() {
    assert!(parse_header(&[0xFE, 0xFB, 0x90, 0x00]).is_none());
    assert!(parse_header(&[0xFF, 0xDB, 0x90, 0x00]).is_none());
    assert!(parse_header(&[0xFF, 0x7B, 0x90, 0x00]).is_none());
}

#[test]
fn reserved_version_is_rejected() {
    // version bits 01
    assert!(parse_header(&[0xFF, 0xEB, 0x90, 0x00]).is_none());
}

#[test]
fn other_layers_are_rejected() {
    // Layer II
    assert!(parse_header(&[0xFF, 0xFD, 0x90, 0x00]).is_none());
    // reserved layer
    assert!(parse_header(&[0xFF, 0xF9, 0x90, 0x00]).is_none());
}

#[test]
fn free_and_bad_bitrates_are_rejected() {
    assert!(parse_header(&[0xFF, 0xFB, 0x00, 0x00]).is_none());
    assert!(parse_header(&[0xFF, 0xFB, 0xF0, 0x00]).is_none());
}

#[test]
fn reserved_sample_rate_is_rejected() {
    assert!(parse_header(&[0xFF, 0xFB, 0x9C, 0x00]).is_none());
}

#[test]
fn versions_select_their_tables() {
    // MPEG2, bitrate index 9, sample-rate index 0
    let h = parsed([0xFF, 0xF3, 0x90, 0x00]);
    assert_eq!(h.version, MpegVersion::Mpeg2);
    assert_eq!(h.bitrate_kbps, 80);
    assert_eq!(h.sample_rate, 22050);
    assert_eq!(h.frame_size, 261);
    assert_eq!(h.granule_count(), 1);
    // MPEG2.5, bitrate index 9, sample-rate index 2
    let h = parsed([0xFF, 0xE3, 0x98, 0x00]);
    assert_eq!(h.version, MpegVersion::Mpeg25);
    assert_eq!(h.bitrate_kbps, 80);
    assert_eq!(h.sample_rate, 8000);
    assert_eq!(h.frame_size, 720);
}

#[test]
fn bitrate_and_sample_rate_tables() {
    let mpeg1 = [32, 40, 48, 56, 64, 80, 96, 112, 128, 160, 192, 224, 256, 320];
    let mpeg2 = [8, 16, 24, 32, 40, 48, 56, 64, 80, 96, 112, 128, 144, 160];
    for index in 1..15u8 {
        let h = parsed([0xFF, 0xFB, index << 4, 0x00]);
        assert_eq!(h.bitrate_kbps, mpeg1[index as usize - 1]);
        let h = parsed([0xFF, 0xF3, index << 4, 0x00]);
        assert_eq!(h.bitrate_kbps, mpeg2[index as usize - 1]);
        let h = parsed([0xFF, 0xE3, index << 4, 0x00]);
        assert_eq!(h.bitrate_kbps, mpeg2[index as usize - 1]);
    }
    let rates = [[44100, 48000, 32000], [22050, 24000, 16000], [11025, 12000, 8000]];
    let second = [0xFB, 0xF3, 0xE3];
    for version in 0..3 {
        for index in 0..3u8 {
            let h = parsed([0xFF, second[version], 0x90 | (index << 2), 0x00]);
            assert_eq!(h.sample_rate, rates[version][index as usize]);
        }
    }
}

#[test]
fn channel_modes() {
    assert_eq!(parsed([0xFF, 0xFB, 0x90, 0x00]).channel_mode, ChannelMode::Stereo);
    assert_eq!(parsed([0xFF, 0xFB, 0x90, 0x40]).channel_mode, ChannelMode::JointStereo);
    assert_eq!(parsed([0xFF, 0xFB, 0x90, 0x80]).channel_mode, ChannelMode::DualChannel);
    assert_eq!(parsed([0xFF, 0xFB, 0x90, 0xC0]).channel_mode, ChannelMode::Mono);
    assert_eq!(ChannelMode::Mono.channel_count(), 1);
    assert_eq!(ChannelMode::Stereo.channel_count(), 2);
    assert_eq!(ChannelMode::JointStereo.channel_count(), 2);
    assert_eq!(ChannelMode::DualChannel.channel_count(), 2);
}

#[test]
fn frame_sizes_stay_within_bounds() {
    let mut smallest = usize::MAX;
    let mut largest = 0;
    for b1 in 0..=255u8 {
        for b2 in 0..=255u8 {
            if let Some(h) = parse_header(&[0xFF, b1, b2, 0x00]) {
                let samples = if h.version == MpegVersion::Mpeg1 { 1152 } else { 576 };
                let expected = samples * h.bitrate_kbps as usize * 125 / h.sample_rate as usize
                    + if h.padding { 1 } else { 0 };
                assert_eq!(h.frame_size, expected);
                smallest = smallest.min(h.frame_size);
                largest = largest.max(h.frame_size);
            }
        }
    }
    assert_eq!(smallest, 24);
    assert_eq!(largest, 1441);
}
