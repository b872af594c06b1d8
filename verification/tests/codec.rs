use whep_relay::codec::{
    get_codec_priority, is_codec_listed, is_supported, priority, MediaKind, AUDIO_CODEC_PRIORITY,
    UNRANKED_PRIORITY, VIDEO_CODEC_PRIORITY,
};

#[test]
fn video_ranks_are_as_configured() {
    assert_eq!(get_codec_priority("h265", &VIDEO_CODEC_PRIORITY), 1);
    assert_eq!(get_codec_priority("h264", &VIDEO_CODEC_PRIORITY), 2);
    assert_eq!(get_codec_priority("vp9", &VIDEO_CODEC_PRIORITY), 3);
    assert_eq!(get_codec_priority("vp8", &VIDEO_CODEC_PRIORITY), 4);
}

#[test]
fn audio_ranks_are_as_configured() {
    assert_eq!(get_codec_priority("opus", &AUDIO_CODEC_PRIORITY), 1);
    assert_eq!(get_codec_priority("pcmu", &AUDIO_CODEC_PRIORITY), 2);
    assert_eq!(get_codec_priority("pcma", &AUDIO_CODEC_PRIORITY), 3);
    assert_eq!(get_codec_priority("g722", &AUDIO_CODEC_PRIORITY), 4);
}

#[test]
fn unlisted_encoding_gets_the_sentinel() {
    assert_eq!(UNRANKED_PRIORITY, 100);
    assert_eq!(get_codec_priority("av1", &VIDEO_CODEC_PRIORITY), 100);
    assert_eq!(get_codec_priority("opus", &VIDEO_CODEC_PRIORITY), 100);
    assert_eq!(get_codec_priority("h264", &AUDIO_CODEC_PRIORITY), 100);
    assert_eq!(get_codec_priority("", &AUDIO_CODEC_PRIORITY), 100);
    assert_eq!(get_codec_priority("H264", &VIDEO_CODEC_PRIORITY), 100);
    assert_eq!(get_codec_priority("h264", &[]), 100);
}

#[test]
fn sentinel_is_above_every_configured_rank() {
    for (_, rank) in VIDEO_CODEC_PRIORITY.iter().chain(AUDIO_CODEC_PRIORITY.iter()) {
        assert!(*rank < UNRANKED_PRIORITY);
    }
}

#[test]
fn first_entry_wins_in_a_table_with_repeats() {
    let table = [("x", 7), ("y", 3), ("x", 1)];
    assert_eq!(get_codec_priority("x", &table), 7);
    assert_eq!(get_codec_priority("y", &table), 3);
    assert!(is_codec_listed("x", &table));
    assert!(!is_codec_listed("z", &table));
}

#[test]
fn priority_goes_by_kind() {
    assert_eq!(priority("h265", MediaKind::Video), 1);
    assert_eq!(priority("vp8", MediaKind::Video), 4);
    assert_eq!(priority("opus", MediaKind::Audio), 1);
    assert_eq!(priority("g722", MediaKind::Audio), 4);
    assert_eq!(priority("opus", MediaKind::Video), 100);
    assert_eq!(priority("h264", MediaKind::Audio), 100);
    assert!(is_supported("vp9", MediaKind::Video));
    assert!(!is_supported("vp9", MediaKind::Audio));
    assert!(is_supported("pcma", MediaKind::Audio));
    assert!(!is_supported("mjpeg", MediaKind::Video));
}
