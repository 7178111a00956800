use open_mpv::player::playback::{
    FocusedPlayback, PlaybackRateError, ResumeAction, SeekRequest, SeekState, StreamInfo,
    SEEK_SETTLE,
};
use open_mpv::player::tracks::{AudioChoice, SubtitleChoice};

/// The clock while a test runs.
const NOW: u64 = 100_000;

fn seconds(value: f64) -> i64 {
    (value * 1e9) as i64
}

fn request(position: f64, rate: u32) -> SeekRequest {
    SeekRequest {
        position: seconds(position),
        rate,
    }
}

/// Stand-in for what issuing a seek records on the pipeline's behalf.
fn issued(state: &mut SeekState, request: SeekRequest, ago: u64) {
    state.in_flight = Some((request, NOW - ago));
    state.queued = None;
}

#[derive(Clone, Copy, PartialEq)]
enum Kind {
    Video,
    Audio,
    Text,
}

fn stream(id: &str, kind: Kind, select: bool) -> StreamInfo {
    StreamInfo {
        id: Some(id.to_string()),
        audio: kind == Kind::Audio,
        video: kind == Kind::Video,
        text: kind == Kind::Text,
        select,
        unselect: false,
        title: None,
        language_name: None,
        language_code: None,
    }
}

fn strings(list: &[&str]) -> Vec<String> {
    list.iter().map(|text| text.to_string()).collect()
}

#[test]
fn first_seek_goes_out_immediately() {
    let mut state = SeekState::new();
    assert!(state.request(request(12.0, 100), NOW));
    assert_eq!(state.queued, None);
}

#[test]
fn scrubbing_during_a_seek_keeps_only_the_newest_position() {
    let mut state = SeekState::new();
    issued(&mut state, request(12.0, 100), 0);
    assert!(!state.request(request(20.0, 100), NOW));
    assert!(!state.request(request(31.0, 100), NOW));
    assert_eq!(state.queued, Some(request(31.0, 100)));
    // The UI follows the pointer, not the seek still on its way.
    assert_eq!(state.pending(NOW), Some(request(31.0, 100)));
}

#[test]
fn speed_change_during_a_seek_is_coalesced_with_the_latest_position() {
    let mut state = SeekState::new();
    issued(&mut state, request(12.0, 100), 0);
    assert!(!state.request(request(12.0, 150), NOW));
    // A later scrub keeps the requested rate while replacing only the
    // pending position.
    assert!(!state.request(request(31.0, 150), NOW));
    assert_eq!(state.queued, Some(request(31.0, 150)));
}

#[test]
fn focused_playback_trace_attaches_prerolls_seeks_and_resumes() {
    let mut playback = FocusedPlayback::new();
    playback.start_video(b"movie.mkv", None, true);
    playback.prepare_subtitle_rebuild(seconds(42.5), 150, true, Some(b"movie.srt".to_vec()));
    assert_eq!(playback.external_subtitle(), Some(b"movie.srt".as_slice()));

    let seek = request(42.5, 150);
    assert_eq!(
        playback.observe_async_done(),
        ResumeAction::Seek {
            position: seconds(42.5),
            rate: 150,
            resume_playing: true,
        }
    );
    playback.begin_seek(seek, NOW);
    playback.accept_seek(seek);
    assert_eq!(
        playback.observe_async_done(),
        ResumeAction::Finish {
            resume_playing: true,
        }
    );
    assert!(!playback.is_resuming());
    assert_eq!(playback.accepted_rate(), 150);
}

#[test]
fn focused_playback_trace_marks_playing_only_after_pipeline_setup() {
    let mut playback = FocusedPlayback::new();
    playback.start_video(b"movie.mkv", None, true);
    assert!(!playback.is_playing());

    playback.playback_started();
    assert!(playback.is_playing());
}

#[test]
fn focused_playback_trace_coalesces_queued_seeks_and_speed_changes() {
    let mut playback = FocusedPlayback::new();
    playback.start_video(b"movie.mkv", None, true);

    let first = request(12.0, 100);
    assert!(playback.request_seek(first, NOW));
    playback.begin_seek(first, NOW);
    playback.accept_seek(first);
    assert!(!playback.request_seek(request(12.0, 150), NOW));
    assert!(!playback.request_seek(request(31.0, 150), NOW));
    assert_eq!(playback.requested_rate(NOW), 150);

    let queued = playback.finish_seek().unwrap();
    assert_eq!(queued, request(31.0, 150));
    playback.begin_seek(queued, NOW);
    playback.accept_seek(queued);
    assert_eq!(playback.finish_seek(), None);
    assert_eq!(playback.accepted_rate(), 150);
}

#[test]
fn focused_playback_trace_keeps_the_accepted_rate_when_a_seek_is_refused() {
    let mut playback = FocusedPlayback::new();
    let rate_change = request(12.0, 150);
    playback.begin_seek(rate_change, NOW);
    playback.seek_refused();

    assert_eq!(playback.accepted_rate(), 100);
    assert_eq!(playback.pending_seek_position(NOW), None);
}

#[test]
fn focused_playback_trace_rejects_stale_errors_for_a_reopened_path() {
    let mut playback = FocusedPlayback::new();
    let video = b"movie.mkv";
    playback.start_video(video, Some(b"movie.srt".to_vec()), true);
    let stale = playback.begin_error().unwrap();

    // Generation identity matters because path and sidecar can be equal
    // after navigation or an explicit reopen.
    playback.start_video(video, Some(b"movie.srt".to_vec()), true);
    assert!(!playback.error_is_current(&stale));
    let current = playback.begin_error().unwrap();
    playback.prepare_subtitle_rebuild(0, 100, true, None);
    assert!(!playback.error_is_current(&current));
    playback.finish_error(&stale);
    assert!(playback.begin_error().is_none());
    playback.finish_error(&current);
    assert!(playback.begin_error().is_some());
}

#[test]
fn focused_playback_trace_resets_stream_choices_before_recovery_collection() {
    fn collection(video: &str, audio: &str, subtitle: Option<&str>) -> Vec<StreamInfo> {
        let mut streams = vec![
            stream(video, Kind::Video, true),
            stream(audio, Kind::Audio, true),
        ];
        if let Some(subtitle) = subtitle {
            streams.push(stream(subtitle, Kind::Text, true));
        }
        streams
    }
    let mut playback = FocusedPlayback::new();
    playback.start_video(b"movie.mkv", None, false);

    let initial = playback.observe_stream_collection(collection("video-1", "main", Some("english")));
    assert!(initial.selection.is_some());
    assert_eq!(initial.subtitles.choice, SubtitleChoice::Off);
    let (_, initial_subtitles) = playback.observe_streams_selected(strings(&["video-1", "main"]));
    assert_eq!(initial_subtitles.choice, SubtitleChoice::Off);

    playback.prepare_subtitle_rebuild(seconds(12.0), 100, true, Some(b"movie.srt".to_vec()));
    let replacement =
        playback.observe_stream_collection(collection("video-2", "main", Some("external")));
    assert!(replacement.selection.is_none());
    assert_eq!(replacement.subtitles.choice, SubtitleChoice::Automatic);
    let (_, replacement_subtitles) =
        playback.observe_streams_selected(strings(&["video-2", "main", "external"]));
    assert_eq!(
        replacement_subtitles.active_label.as_deref(),
        Some("External — movie.srt")
    );
    assert_eq!(playback.external_subtitle(), Some(b"movie.srt".as_slice()));
}

#[test]
fn stream_selection_preserves_chosen_audio_video_and_subtitle() {
    let mut playback = FocusedPlayback::new();
    playback.observe_stream_collection(vec![
        stream("video", Kind::Video, true),
        stream("english-audio", Kind::Audio, true),
        stream("commentary", Kind::Audio, false),
        stream("english", Kind::Text, true),
        stream("hindi", Kind::Text, false),
    ]);
    playback.set_audio_choice(AudioChoice::Track("commentary".into()));
    playback.set_subtitle_choice(SubtitleChoice::Track("hindi".into()));

    assert_eq!(
        playback.stream_selection_ids(None, None),
        ["video", "commentary", "hindi"]
    );
}

#[test]
fn subtitle_change_preserves_the_active_automatic_audio_stream() {
    let mut playback = FocusedPlayback::new();
    playback.observe_stream_collection(vec![
        stream("video", Kind::Video, true),
        stream("english-audio", Kind::Audio, true),
        stream("commentary", Kind::Audio, false),
        stream("english-text", Kind::Text, true),
        stream("hindi-text", Kind::Text, false),
    ]);
    playback.observe_streams_selected(strings(&["video", "commentary", "hindi-text"]));

    assert_eq!(
        playback.stream_selection_ids(None, Some(&SubtitleChoice::Track("english-text".into()))),
        ["video", "commentary", "english-text"]
    );
    assert_eq!(
        playback.stream_selection_ids(Some(&AudioChoice::Automatic), None),
        ["video", "english-audio", "hindi-text"]
    );
}

#[test]
fn collection_changes_retain_valid_choices_and_reset_missing_choices() {
    let collection = |audio_ids: &[&str]| {
        let mut streams = vec![stream("video", Kind::Video, true)];
        for (index, id) in audio_ids.iter().enumerate() {
            streams.push(stream(id, Kind::Audio, index == 0));
        }
        streams
    };
    let mut playback = FocusedPlayback::new();
    playback.set_audio_choice(AudioChoice::Track("commentary".into()));

    playback.observe_stream_collection(collection(&["english", "commentary"]));
    assert_eq!(
        playback.audio_snapshot().choice,
        AudioChoice::Track("commentary".into())
    );

    playback.observe_stream_collection(collection(&["english", "descriptive"]));
    assert_eq!(playback.audio_snapshot().choice, AudioChoice::Automatic);
}

#[test]
fn audio_track_labels_use_title_language_then_stable_fallback() {
    let titled = StreamInfo {
        title: Some("Director Commentary".to_string()),
        ..stream("commentary", Kind::Audio, true)
    };
    let language = StreamInfo {
        language_name: Some("Hindi".to_string()),
        ..stream("hindi", Kind::Audio, false)
    };
    let untagged = stream("other", Kind::Audio, false);
    let mut playback = FocusedPlayback::new();
    playback.observe_stream_collection(vec![titled, language, untagged]);

    assert_eq!(
        playback
            .audio_snapshot()
            .tracks
            .iter()
            .map(|track| track.label.as_str())
            .collect::<Vec<_>>(),
        ["Director Commentary", "Hindi", "Audio 3"]
    );
}

#[test]
fn subtitle_visibility_toggle_restores_the_selected_track() {
    assert_eq!(
        SubtitleChoice::Track("off".into()).action_target(),
        "track:off"
    );
    let mut playback = FocusedPlayback::new();
    playback.observe_stream_collection(vec![stream("hindi", Kind::Text, false)]);
    playback.set_subtitle_choice(SubtitleChoice::Track("hindi".into()));

    assert_eq!(playback.toggled_subtitle_choice(), SubtitleChoice::Off);
    playback.set_subtitle_choice(SubtitleChoice::Off);
    assert_eq!(
        playback.toggled_subtitle_choice(),
        SubtitleChoice::Track("hindi".into())
    );

    playback.observe_stream_collection(Vec::new());
    assert_eq!(
        playback.toggled_subtitle_choice(),
        SubtitleChoice::Automatic
    );
    assert_eq!(playback.subtitle_toggle_choice(), None);
}

#[test]
fn rapid_subtitle_cycles_follow_the_requested_track_not_stale_bus_state() {
    let mut playback = FocusedPlayback::new();
    playback.observe_stream_collection(vec![
        stream("english", Kind::Text, true),
        stream("hindi", Kind::Text, false),
    ]);
    playback.set_subtitle_choice(SubtitleChoice::Track("hindi".into()));
    playback.observe_streams_selected(strings(&["english"]));

    assert_eq!(playback.cycled_subtitle_choice(), SubtitleChoice::Off);
    playback.set_subtitle_choice(SubtitleChoice::Off);
    assert_eq!(
        playback.cycled_subtitle_choice(),
        SubtitleChoice::Track("english".into())
    );
}

#[test]
fn external_filename_is_not_assigned_to_an_ambiguous_embedded_track() {
    let mut playback = FocusedPlayback::new();
    playback.start_video(b"movie.mkv", Some(b"movie.en.srt".to_vec()), true);
    playback.observe_stream_collection(vec![
        stream("embedded", Kind::Text, true),
        stream("external", Kind::Text, true),
    ]);
    let tracks = playback.subtitle_snapshot().tracks;
    assert_eq!(tracks[0].label, "Subtitle 1");
    assert_eq!(tracks[1].label, "Subtitle 2");

    playback.observe_stream_collection(vec![stream("external", Kind::Text, true)]);
    assert_eq!(
        playback.subtitle_snapshot().tracks[0].label,
        "External — movie.en.srt"
    );
}

#[test]
fn a_lost_seek_stops_blocking_and_stops_being_reported() {
    let mut state = SeekState::new();
    issued(&mut state, request(12.0, 100), SEEK_SETTLE);
    assert_eq!(state.pending(NOW), None);
    assert!(state.request(request(20.0, 100), NOW));
}

#[test]
fn seeks_before_the_start_go_to_the_start() {
    assert_eq!(request(-3.0, 100).target(), 0);
    assert_eq!(request(1.5, 100).target(), 1_500_000_000);
}

#[test]
fn rate_errors_say_what_is_wrong() {
    assert_eq!(
        PlaybackRateError::PositionUnavailable.describe(),
        "playback speed is not ready yet"
    );
    assert_eq!(
        PlaybackRateError::SeekRefused.describe(),
        "this video cannot change playback speed"
    );
    assert!(!PlaybackRateError::PitchFilterUnavailable.describe().is_empty());
}

#[test]
fn toggling_twice_returns_to_the_track() {
    let mut playback = FocusedPlayback::new();
    playback.observe_stream_collection(vec![stream("hindi", Kind::Text, false)]);
    playback.set_subtitle_choice(SubtitleChoice::Track("hindi".into()));
    for _ in 0..2 {
        let choice = playback.subtitle_toggle_choice().unwrap();
        playback.set_subtitle_choice(choice);
    }
    assert_eq!(
        playback.subtitle_snapshot().choice,
        SubtitleChoice::Track("hindi".into())
    );
}
