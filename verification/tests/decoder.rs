use open_mpv::player::decoder::{
    h264_exceeds_declared_level, h264_level_max_frame_mbs, intel_video_decoders,
    missing_subtitle_decoder, missing_video_decoder, preferred_hardware_rank,
    video_stream_summary, CapsStructure, DecoderFallback, MissingMessage, RANK_NONE, RANK_PRIMARY,
};

const RANK_MARGINAL: i32 = 64;

fn h264(level: &str, width: i32, height: i32, framerate: (i32, i32)) -> Vec<CapsStructure> {
    vec![CapsStructure {
        name: "video/x-h264".to_string(),
        profile: None,
        level: Some(level.to_string()),
        width: Some(width),
        height: Some(height),
        framerate: Some(framerate),
    }]
}

fn missing(media_type: &str, name: &str) -> MissingMessage {
    MissingMessage {
        name: "missing-plugin".to_string(),
        kind: Some("decoder".to_string()),
        media_types: Some(vec![media_type.to_string()]),
        detail: media_type.to_string(),
        description: Some(name.to_string()),
    }
}

#[test]
fn hardware_preference_preserves_explicit_rank_choices() {
    assert_eq!(preferred_hardware_rank(RANK_MARGINAL), Some(RANK_PRIMARY + 2));
    assert_eq!(
        preferred_hardware_rank(RANK_PRIMARY + 1),
        Some(RANK_PRIMARY + 2)
    );
    assert_eq!(preferred_hardware_rank(RANK_NONE), None);
    assert_eq!(preferred_hardware_rank(RANK_PRIMARY + 3), None);
}

#[test]
fn installed_intel_video_decoders_outrank_standard_hardware() {
    assert_eq!(intel_video_decoders()[0], "qsvh264dec");
    for rank in [1, RANK_MARGINAL, RANK_PRIMARY, RANK_PRIMARY + 1, RANK_PRIMARY + 2] {
        let settled = preferred_hardware_rank(rank).unwrap_or(rank);
        assert!(settled > RANK_PRIMARY + 1, "{rank}");
    }
}

#[test]
fn invalid_h264_level_temporarily_disables_qsv_h264() {
    let caps = h264("4", 4_382, 3_500, (30, 1));
    let original = RANK_PRIMARY + 2;
    let mut fallback = DecoderFallback::new();

    assert!(h264_exceeds_declared_level(&caps));
    assert_eq!(
        fallback.bypass_qsv_h264(&caps, Some(RANK_PRIMARY), Some(original)),
        Some("avdec_h264")
    );
    assert_eq!(
        fallback.bypass_qsv_h264(&caps, Some(RANK_PRIMARY), Some(RANK_NONE)),
        None
    );
    assert_eq!(fallback.restore(), Some(original));
    assert_eq!(fallback.restore(), None);
}

#[test]
fn hardware_stays_where_nothing_can_take_over() {
    let caps = h264("4", 4_382, 3_500, (30, 1));
    let mut fallback = DecoderFallback::default();
    assert_eq!(fallback.bypass_qsv_h264(&caps, None, Some(300)), None);
    assert_eq!(fallback.bypass_qsv_h264(&caps, Some(RANK_NONE), Some(300)), None);
    assert_eq!(fallback.restore(), None);
}

#[test]
fn frame_within_h264_level_keeps_hardware_at_high_framerates() {
    let caps = h264("4", 1_120, 1_632, (60, 1));
    assert!(!h264_exceeds_declared_level(&caps));
}

#[test]
fn levels_bound_the_frame_size() {
    assert_eq!(h264_level_max_frame_mbs("1"), Some(99));
    assert_eq!(h264_level_max_frame_mbs("1b"), Some(99));
    assert_eq!(h264_level_max_frame_mbs("2"), Some(396));
    assert_eq!(h264_level_max_frame_mbs("4"), Some(8_192));
    assert_eq!(h264_level_max_frame_mbs("nonsense"), None);
}

#[test]
fn video_diagnostics_include_decoder_relevant_stream_facts() {
    let caps = vec![CapsStructure {
        name: "video/x-h264".to_string(),
        profile: Some("high".to_string()),
        level: Some("4.1".to_string()),
        width: Some(1_920),
        height: Some(1_080),
        framerate: Some((30, 1)),
    }];
    assert_eq!(
        video_stream_summary(&caps),
        Some("video/x-h264 profile=high level=4.1 1920x1080 30/1 fps".to_string())
    );
    let bare = vec![CapsStructure {
        name: "video/x-vp9".to_string(),
        profile: None,
        level: None,
        width: None,
        height: None,
        framerate: None,
    }];
    assert_eq!(
        video_stream_summary(&bare),
        Some("video/x-vp9".to_string())
    );
    assert_eq!(video_stream_summary(&Vec::new()), None);
}

#[test]
fn a_missing_video_decoder_is_not_mistaken_for_successful_playback() {
    let message = missing("video/x-h264", "H.264 High 10 decoder");
    assert_eq!(
        missing_video_decoder(&message),
        Some("H.264 High 10 decoder".to_owned())
    );
}

#[test]
fn missing_non_video_decoders_do_not_hide_a_playable_picture() {
    for media_type in ["audio/mpeg", "text/x-raw"] {
        let message = missing(media_type, "optional stream decoder");
        assert_eq!(missing_video_decoder(&message), None);
    }
}

#[test]
fn missing_text_decoder_is_reported_as_a_subtitle_failure() {
    let message = missing("text/x-raw", "subtitle decoder");
    assert_eq!(
        missing_subtitle_decoder(&message),
        Some("subtitle decoder".to_string())
    );
    assert_eq!(missing_video_decoder(&message), None);
}
