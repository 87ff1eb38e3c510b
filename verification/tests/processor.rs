use headroom::analyzer::{AudioAnalysis, GainMethod};
use headroom::processor::{
    after_backup, after_gain, begin_processing, codec_of_lowercase, gain_action, lossless_codec,
    reencode_bitrate, succeeded, GainAction, ProcessStep,
};

fn analysis(gain_method: GainMethod) -> AudioAnalysis {
    AudioAnalysis {
        filename: String::from("track"),
        is_mp3: false,
        is_aac: false,
        bitrate_kbps: None,
        gain_method,
        mp3_gain_steps: 0,
    }
}

fn applied(step: ProcessStep) -> GainAction {
    match step {
        ProcessStep::Apply(action) => action,
        other => panic!("expected the gain step, got {:?}", other),
    }
}

fn done(step: ProcessStep) -> (bool, Option<String>) {
    match step {
        ProcessStep::Done(result) => (result.success, result.error),
        other => panic!("expected the end of processing, got {:?}", other),
    }
}

#[test]
fn success_carries_no_error() {
    let result = succeeded();
    assert!(result.success);
    assert_eq!(result.error, None);
}

#[test]
fn files_without_headroom_are_done_at_once() {
    for wants_backup in [false, true] {
        for allow_reencode in [false, true] {
            let step = begin_processing(&analysis(GainMethod::NoGain), wants_backup, allow_reencode);
            assert_eq!(done(step), (true, None));
        }
    }
}

#[test]
fn reencodes_are_skipped_unless_allowed() {
    for method in [GainMethod::Mp3Reencode, GainMethod::AacReencode] {
        assert_eq!(done(begin_processing(&analysis(method), true, false)), (true, None));
        assert_eq!(done(begin_processing(&analysis(method), false, false)), (true, None));
        assert!(matches!(begin_processing(&analysis(method), true, true), ProcessStep::Backup));
    }
    assert_eq!(
        applied(begin_processing(&analysis(GainMethod::Mp3Reencode), false, true)),
        GainAction::Mp3Reencode
    );
}

#[test]
fn backup_comes_first_where_wanted() {
    for method in [GainMethod::FfmpegLossless, GainMethod::Mp3Lossless] {
        for allow_reencode in [false, true] {
            let step = begin_processing(&analysis(method), true, allow_reencode);
            assert!(matches!(step, ProcessStep::Backup));
        }
    }
    assert_eq!(
        applied(begin_processing(&analysis(GainMethod::FfmpegLossless), false, false)),
        GainAction::Ffmpeg
    );
    assert_eq!(
        applied(begin_processing(&analysis(GainMethod::Mp3Lossless), false, false)),
        GainAction::Mp3Native
    );
}

#[test]
fn a_failed_backup_ends_processing() {
    let step = after_backup(
        &analysis(GainMethod::FfmpegLossless),
        Err(String::from("Failed to backup file")),
    );
    assert_eq!(done(step), (false, Some(String::from("Backup failed: Failed to backup file"))));
}

#[test]
fn gain_follows_the_backup() {
    assert_eq!(
        applied(after_backup(&analysis(GainMethod::FfmpegLossless), Ok(()))),
        GainAction::Ffmpeg
    );
    assert_eq!(
        applied(after_backup(&analysis(GainMethod::Mp3Lossless), Ok(()))),
        GainAction::Mp3Native
    );
    assert_eq!(
        applied(after_backup(&analysis(GainMethod::Mp3Reencode), Ok(()))),
        GainAction::Mp3Reencode
    );
}

#[test]
fn outcome_of_the_gain() {
    let ok = after_gain(Ok(()));
    assert!(ok.success);
    assert_eq!(ok.error, None);
    let failed = after_gain(Err(String::from("ffmpeg failed: no such file")));
    assert!(!failed.success);
    assert_eq!(
        failed.error,
        Some(String::from("Gain adjustment failed: ffmpeg failed: no such file"))
    );
}

#[test]
fn tools_by_method() {
    assert_eq!(gain_action(GainMethod::FfmpegLossless), GainAction::Ffmpeg);
    assert_eq!(gain_action(GainMethod::Mp3Lossless), GainAction::Mp3Native);
    assert_eq!(gain_action(GainMethod::Mp3Reencode), GainAction::Mp3Reencode);
    assert_eq!(gain_action(GainMethod::AacReencode), GainAction::Nothing);
    assert_eq!(gain_action(GainMethod::NoGain), GainAction::Nothing);
}

#[test]
fn codecs_by_extension() {
    assert_eq!(lossless_codec("flac"), Some("flac"));
    assert_eq!(lossless_codec("aiff"), Some("pcm_s24be"));
    assert_eq!(lossless_codec("aif"), Some("pcm_s24be"));
    assert_eq!(lossless_codec("wav"), Some("pcm_s24le"));
    assert_eq!(lossless_codec("FLAC"), Some("flac"));
    assert_eq!(lossless_codec("Wav"), Some("pcm_s24le"));
    assert_eq!(lossless_codec("AIFF"), Some("pcm_s24be"));
    assert_eq!(lossless_codec("mp3"), None);
    assert_eq!(lossless_codec(""), None);
}

#[test]
fn reencode_keeps_the_bitrate() {
    assert_eq!(reencode_bitrate(Some(128)), 128);
    assert_eq!(reencode_bitrate(Some(256)), 256);
    assert_eq!(reencode_bitrate(Some(320)), 320);
    assert_eq!(reencode_bitrate(None), 320);
}

#[test]
fn codecs_of_lowercase_extensions() {
    assert_eq!(codec_of_lowercase("flac"), Some("flac"));
    assert_eq!(codec_of_lowercase("aiff"), Some("pcm_s24be"));
    assert_eq!(codec_of_lowercase("aif"), Some("pcm_s24be"));
    assert_eq!(codec_of_lowercase("wav"), Some("pcm_s24le"));
    assert_eq!(codec_of_lowercase("FLAC"), None);
    assert_eq!(codec_of_lowercase("ogg"), None);
}
