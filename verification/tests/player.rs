use open_mpv::player::playback::{PlaybackRateError, SeekRequest, StreamInfo};
use open_mpv::player::tracks::{AudioChoice, SubtitleChoice};
use open_mpv::player::{
    playback_rates, AsyncPlan, AttachPlan, ErrorReport, Player, PlayerError, RateStep,
    ResumeOutcome,
};

const NOW: u64 = 50_000;
const SECOND: i64 = 1_000_000_000;

fn playing(path: &[u8]) -> Player {
    let mut player = Player::new(true);
    player.play(path, None, true).unwrap();
    player.play_started(true).unwrap();
    player
}

fn text_stream(id: &str) -> StreamInfo {
    StreamInfo {
        id: Some(id.to_string()),
        audio: false,
        video: false,
        text: true,
        select: true,
        unselect: false,
        title: None,
        language_name: None,
        language_code: Some("en".to_string()),
    }
}

#[test]
fn refused_pause_and_resume_do_not_commit_state() {
    let mut player = playing(b"/tmp/open-mpv-test.mp4");
    assert!(player.toggle_pause(false).is_err());
    assert!(player.is_playing());
    assert!(!player.toggle_pause(true).unwrap());
    assert!(player.toggle_pause(false).is_err());
    assert!(!player.is_playing());
    assert!(player.toggle_pause(true).unwrap());
}

#[test]
fn failed_teardown_does_not_replace_uri_and_stop_reports_failure() {
    let mut player = playing(b"/tmp/old.mp4");
    assert!(player.play(b"/tmp/new.mp4", None, false).is_err());
    assert_eq!(player.current_video(), Some(b"/tmp/old.mp4".as_slice()));
    assert!(!player.is_playing());
    assert!(player.stop(false).is_err());
    assert!(player.current_video().is_none());
    player.play(b"/tmp/new.mp4", None, true).unwrap();
    player.play_started(true).unwrap();
    assert_eq!(player.current_video(), Some(b"/tmp/new.mp4".as_slice()));
    player.stop(true).unwrap();
    assert!(!player.is_playing());
}

#[test]
fn refused_rewind_seek_and_resume_never_report_playing() {
    let mut player = playing(b"/tmp/movie.mp4");
    assert!(matches!(
        player.rewind(false, true),
        Err(PlayerError::SeekRefused)
    ));
    assert!(!player.is_playing());
    assert!(player.rewind(true, false).is_err());
    assert!(!player.is_playing());
    player.rewind(true, true).unwrap();
    assert!(player.is_playing());
}

#[test]
fn subtitle_attach_and_recovery_require_completed_teardown() {
    let subtitle = b"/tmp/movie.srt";
    let mut player = playing(b"/tmp/movie.mp4");
    assert_eq!(player.attach_subtitle(subtitle), AttachPlan::Rebuild);
    assert!(player.rebuild_with(subtitle, 0, 100, true, false).is_err());
    assert!(player.external_subtitle().is_none());
    let mut player = playing(b"/tmp/movie.mp4");
    player.rebuild_with(subtitle, 0, 100, true, true).unwrap();
    assert!(player.rebuild_started(true));
    assert_eq!(player.external_subtitle(), Some(subtitle.as_slice()));
    assert!(!player.recover_without_external(false));
    assert_eq!(player.external_subtitle(), Some(subtitle.as_slice()));
    assert!(!player.is_playing());
}

#[test]
fn failed_subtitle_restart_and_recovery_clear_pending_resume() {
    let mut player = playing(b"/tmp/movie.mp4");
    player
        .rebuild_with(b"/tmp/movie.srt", 20 * SECOND, 100, true, true)
        .unwrap();
    assert!(!player.rebuild_started(false));
    assert!(!player.is_playing());
    assert_eq!(player.async_done(), AsyncPlan::Queued(None));
}

#[test]
fn both_subtitle_completion_paths_report_refusal_and_reject_stale_errors() {
    for position in [0, 20 * SECOND] {
        for playing_after in [false, true] {
            for supersede in [false, true] {
                let mut player = playing(b"/tmp/movie.mp4");
                player
                    .rebuild_with(b"/tmp/movie.srt", position, 100, playing_after, true)
                    .unwrap();
                player.rebuild_started(true);
                player.state_answered(!playing_after, true);
                let mut plan = player.async_done();
                if position > 0 {
                    let AsyncPlan::Resume {
                        request,
                        resume_playing,
                    } = plan
                    else {
                        panic!("expected a seek, got {plan:?}");
                    };
                    assert_eq!(
                        player.resume_answered(request, resume_playing, true),
                        ResumeOutcome::Sent
                    );
                    plan = player.async_done();
                }
                let AsyncPlan::State { playing, .. } = plan else {
                    panic!("expected a change of state, got {plan:?}");
                };
                assert_eq!(playing, playing_after);
                let context = player.state_answered(playing, false).unwrap();
                assert_eq!(player.is_playing(), !playing_after);
                if supersede {
                    player.stop(true).unwrap();
                }
                assert_eq!(player.error_is_current(&context), !supersede);
            }
        }
    }
}

#[test]
fn play_attaches_explicit_subtitle() {
    let mut player = Player::new(true);
    player
        .play(b"/tmp/movie.mp4", Some(b"/tmp/movie.srt".to_vec()), true)
        .unwrap();
    assert_eq!(
        player.external_subtitle(),
        Some(b"/tmp/movie.srt".as_slice())
    );
}

#[test]
fn attaching_needs_a_video_and_knows_what_is_attached() {
    let player = Player::new(true);
    assert_eq!(player.attach_subtitle(b"a.srt"), AttachPlan::NoVideo);
    let mut player = Player::new(true);
    player
        .play(b"movie.mp4", Some(b"dir/movie.srt".to_vec()), true)
        .unwrap();
    assert_eq!(
        player.attach_subtitle(b"dir//movie.srt"),
        AttachPlan::AlreadyAttached
    );
    assert_eq!(player.attach_subtitle(b"other.srt"), AttachPlan::Rebuild);
}

#[test]
fn a_failing_subtitle_file_is_dropped_before_the_video_is() {
    let mut player = Player::new(true);
    player
        .play(b"movie.mp4", Some(b"movie.srt".to_vec()), true)
        .unwrap();
    player.play_started(true).unwrap();
    let context = player.begin_error().unwrap();
    assert!(player.begin_error().is_none());
    assert!(player.error_is_current(&context));
    assert_eq!(player.recoverable_video(), Some(b"movie.mp4".to_vec()));
    let current = player.error_is_current(&context);
    let recovered = player.recover_without_external(true);
    assert_eq!(
        player.settle_error(&context, current, recovered),
        ErrorReport::Subtitle
    );
    assert!(!player.has_external_subtitle());
    let context = player.begin_error().unwrap();
    assert_eq!(player.recoverable_video(), None);
    assert_eq!(player.settle_error(&context, true, false), ErrorReport::Fatal);
    assert_eq!(player.settle_error(&context, false, false), ErrorReport::Stale);
}

#[test]
fn seek_distances_add_up_while_a_seek_is_on_its_way() {
    let mut player = playing(b"movie.mp4");
    let length = Some(100 * SECOND as u64);
    let first = player
        .seek_by(10 * SECOND, NOW, length, Some(5 * SECOND as u64))
        .unwrap();
    assert_eq!(first.position, 15 * SECOND);
    player.issue_seek(first, NOW);
    assert_eq!(player.seek_by(10 * SECOND, NOW, length, Some(0)), None);
    assert_eq!(player.seek_by(10 * SECOND, NOW, length, Some(0)), None);
    assert_eq!(
        player.progress(NOW, length, Some(0)),
        Some((35 * SECOND as u64, 100 * SECOND as u64))
    );
    assert!(!player.seek_answered(first, true));
    assert_eq!(
        player.async_done(),
        AsyncPlan::Queued(Some(SeekRequest::new(35 * SECOND, 100)))
    );
    // The video ends where it ends.
    let last = player
        .seek_by(1_000 * SECOND, NOW, length, Some(35 * SECOND as u64))
        .unwrap();
    assert_eq!(last.position, 100 * SECOND);
}

#[test]
fn rates_are_checked_before_they_are_asked_for() {
    let mut player = playing(b"movie.mp4");
    assert_eq!(
        player.set_playback_rate(110, NOW, Some(0)),
        Err(PlaybackRateError::SeekRefused)
    );
    assert_eq!(
        player.set_playback_rate(150, NOW, None),
        Err(PlaybackRateError::PositionUnavailable)
    );
    assert_eq!(
        player.set_playback_rate(100, NOW, None),
        Ok(RateStep::Settled)
    );
    let request = SeekRequest::new(3 * SECOND, 150);
    assert_eq!(
        player.set_playback_rate(150, NOW, Some(3 * SECOND)),
        Ok(RateStep::Issue(request))
    );
    player.issue_seek(request, NOW);
    assert_eq!(player.playback_rate(NOW), 150);
    assert!(player.seek_answered(request, false), "a refused rate is reported");
    assert_eq!(player.playback_rate(NOW), 100);

    let mut plain = Player::new(false);
    plain.play(b"movie.mp4", None, true).unwrap();
    assert_eq!(
        plain.set_playback_rate(150, NOW, Some(0)),
        Err(PlaybackRateError::PitchFilterUnavailable)
    );
    assert_eq!(playback_rates(), [50, 75, 100, 125, 150, 200]);
}

#[test]
fn durations_are_remembered_until_they_change() {
    let mut player = playing(b"movie.mp4");
    assert_eq!(player.known_duration(), None);
    assert_eq!(player.duration(Some(0)), None);
    assert_eq!(player.duration(Some(7)), Some(7));
    assert_eq!(player.duration(Some(9)), Some(7));
    player.duration_changed();
    assert_eq!(player.duration(Some(9)), Some(9));
}

#[test]
fn subtitles_are_chosen_toggled_and_cycled() {
    let mut player = playing(b"movie.mp4");
    assert_eq!(player.toggle_subtitles(), None);
    let update = player.streams_found(vec![text_stream("one"), text_stream("two")]);
    assert_eq!(update.subtitle_count, 2);
    assert_eq!(update.audio_count, 0);
    let two = SubtitleChoice::Track("two".into());
    assert_eq!(player.choose_subtitle(&two), Some(vec!["two".to_string()]));
    player.subtitle_chosen(two.copy(), true);
    assert_eq!(player.cycle_subtitles(), Some(SubtitleChoice::Off));
    assert_eq!(player.toggle_subtitles(), Some(SubtitleChoice::Off));
    player.subtitle_chosen(SubtitleChoice::Off, false);
    assert_eq!(player.subtitle_snapshot().choice, two);
    assert_eq!(
        player.choose_subtitle(&SubtitleChoice::Track("three".into())),
        None
    );
    assert_eq!(player.choose_audio(&AudioChoice::Track("one".into())), None);
    player.reset_subtitle_choice();
    assert_eq!(
        player.subtitle_snapshot().choice,
        SubtitleChoice::Automatic
    );
}

#[test]
fn subtitles_can_start_off() {
    let mut player = Player::new(true);
    player.set_subtitles_default(false);
    player.play(b"movie.mp4", None, true).unwrap();
    assert_eq!(player.subtitle_snapshot().choice, SubtitleChoice::Off);
}

#[test]
fn player_errors_name_the_file_and_the_cause() {
    assert_eq!(
        PlayerError::Uri.describe("movie.mp4", "why"),
        "cannot build uri for movie.mp4: why"
    );
    assert_eq!(
        PlayerError::Playback.describe("movie.mp4", "why"),
        "cannot start playback of movie.mp4: why"
    );
    assert_eq!(
        PlayerError::SubtitleFile.describe("movie.srt", "why"),
        "cannot read subtitle movie.srt: why"
    );
    assert_eq!(PlayerError::Init.describe("", "why"), "GStreamer init failed: why");
    assert_eq!(
        PlayerError::SinkUnavailable.describe("", "why"),
        "gtk4paintablesink unavailable: why"
    );
    assert_eq!(
        PlayerError::PlaybinUnavailable.describe("", "why"),
        "playbin3 unavailable: why"
    );
    assert_eq!(PlayerError::MissingBus.describe("", ""), "playbin has no bus");
    assert_eq!(
        PlayerError::BusWatch.describe("", "why"),
        "cannot watch pipeline bus: why"
    );
}

#[test]
fn attaching_goes_on_where_the_video_is() {
    let mut player = playing(b"movie.mp4");
    let step = player.set_playback_rate(150, NOW, Some(3 * SECOND)).unwrap();
    let RateStep::Issue(request) = step else {
        panic!("expected a seek, got {step:?}");
    };
    player.issue_seek(request, NOW);
    player.seek_answered(request, true);
    assert!(!player.toggle_pause(true).unwrap());
    let length = Some(60 * SECOND as u64);
    player
        .rebuild_in_place(b"movie.srt", NOW, length, Some(9 * SECOND as u64), true)
        .unwrap();
    assert_eq!(player.external_subtitle(), Some(b"movie.srt".as_slice()));
    let AsyncPlan::Resume {
        request,
        resume_playing,
    } = player.async_done()
    else {
        panic!("expected a seek");
    };
    assert_eq!(request, SeekRequest::new(3 * SECOND, 150));
    assert!(!resume_playing, "a paused video stays paused");
}

#[test]
fn attaching_before_the_length_is_known_asks_the_pipeline() {
    let mut player = playing(b"movie.mp4");
    player
        .rebuild_in_place(b"movie.srt", NOW, None, Some(9 * SECOND as u64), true)
        .unwrap();
    assert_eq!(
        player.async_done(),
        AsyncPlan::Resume {
            request: SeekRequest::new(9 * SECOND, 100),
            resume_playing: true,
        }
    );
    let mut refused = playing(b"movie.mp4");
    assert!(refused
        .rebuild_in_place(b"movie.srt", NOW, None, None, false)
        .is_err());
    assert_eq!(refused.external_subtitle(), None);
    assert!(refused.is_playing(), "a refused teardown leaves the play state alone");
}

#[test]
fn pipelines_are_not_reused_across_subtitle_files() {
    let mut player = playing(b"movie.mp4");
    assert!(!player.needs_replacement(false));
    assert!(player.needs_replacement(true));
    player.play(b"other.mp4", Some(b"other.srt".to_vec()), true).unwrap();
    assert!(player.needs_replacement(false));
}
