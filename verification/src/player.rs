//! Video playback: what the player does with its pipeline.
//!
//! The pipeline itself is driven from outside. Every operation that depends on
//! how the pipeline answers is split at that answer: one step says what to ask,
//! the next takes the answer and says what follows.
use vstd::prelude::*;

use crate::paths::{copy_bytes, place, same_path};
use crate::player::playback::{
    path_text, shows_audio, shows_subtitles, texts, ErrorContext, FocusedPlayback, PlaybackRateError, ResumeAction,
    SeekRequest, SeekState, Session, StreamInfo, StreamUpdate, NORMAL_RATE,
};
use crate::player::tracks::{AudioChoice, AudioSnapshot, Choice, SubtitleChoice, SubtitleSnapshot};

pub mod decoder;
pub mod playback;
pub mod tracks;

verus! {

/// The rates that can be chosen, in hundredths.
pub open spec fn rates() -> Seq<u32> {
    seq![50u32, 75u32, 100u32, 125u32, 150u32, 200u32]
}

pub fn playback_rates() -> (result: Vec<u32>)
    ensures
        result@ == rates(),
{
    let list: Vec<u32> = vec![50, 75, 100, 125, 150, 200];
    assert(list@ =~= rates());
    list
}

pub fn is_rate(rate: u32) -> (result: bool)
    ensures
        result == rates().contains(rate),
{
    let result = rate == 50 || rate == 75 || rate == 100 || rate == 125 || rate == 150 || rate
        == 200;
    proof {
        let list = rates();
        assert(list[0] == 50 && list[1] == 75 && list[2] == 100 && list[3] == 125 && list[4] == 150
            && list[5] == 200);
        if list.contains(rate) {
            let i = choose|i: int| 0 <= i < list.len() && list[i] == rate;
            assert(0 <= i < 6);
        }
    }
    result
}

/// Why an operation of the player failed.
#[derive(Debug, Clone, Copy, PartialEq, Eq, Structural)]
pub enum PlayerError {
    Init,
    SinkUnavailable,
    PlaybinUnavailable,
    MissingBus,
    BusWatch,
    Uri,
    Playback,
    SeekRefused,
    SubtitleFile,
}

impl PlayerError {
    /// What to say of a failure that concerns a file, given what its cause says.
    pub open spec fn text(self, path: Seq<char>, source: Seq<char>) -> Seq<char> {
        match self {
            PlayerError::Init => "GStreamer init failed: "@ + source,
            PlayerError::SinkUnavailable => "gtk4paintablesink unavailable: "@ + source,
            PlayerError::PlaybinUnavailable => "playbin3 unavailable: "@ + source,
            PlayerError::MissingBus => "playbin has no bus"@,
            PlayerError::BusWatch => "cannot watch pipeline bus: "@ + source,
            PlayerError::Uri => "cannot build uri for "@ + path + ": "@ + source,
            PlayerError::Playback => "cannot start playback of "@ + path + ": "@ + source,
            PlayerError::SeekRefused => "this video cannot be rewound"@,
            PlayerError::SubtitleFile => "cannot read subtitle "@ + path + ": "@ + source,
        }
    }

    pub fn describe(self, path: &str, source: &str) -> (result: String)
        ensures
            result@ == self.text(path@, source@),
    {
        match self {
            PlayerError::Init => "GStreamer init failed: ".to_owned().concat(source),
            PlayerError::SinkUnavailable => "gtk4paintablesink unavailable: ".to_owned().concat(
                source,
            ),
            PlayerError::PlaybinUnavailable => "playbin3 unavailable: ".to_owned().concat(source),
            PlayerError::MissingBus => "playbin has no bus".to_owned(),
            PlayerError::BusWatch => "cannot watch pipeline bus: ".to_owned().concat(source),
            PlayerError::Uri => "cannot build uri for ".to_owned().concat(path).concat(
                ": ",
            ).concat(source),
            PlayerError::Playback => "cannot start playback of ".to_owned().concat(path).concat(
                ": ",
            ).concat(source),
            PlayerError::SeekRefused => "this video cannot be rewound".to_owned(),
            PlayerError::SubtitleFile => "cannot read subtitle ".to_owned().concat(path).concat(
                ": ",
            ).concat(source),
        }
    }
}

/// What attaching a subtitle file asks for.
#[derive(Debug, Clone, Copy, PartialEq, Eq, Structural)]
pub enum AttachPlan {
    /// No video is playing.
    NoVideo,
    /// The file is attached already; its track is to be selected.
    AlreadyAttached,
    /// The pipeline is to be torn down and built again with the file.
    Rebuild,
}

/// What to do when the pipeline has settled.
#[derive(Debug, Clone, Copy, PartialEq, Eq)]
pub enum AsyncPlan {
    /// Seek to where playback goes on after a rebuild.
    Resume { request: SeekRequest, resume_playing: bool },
    /// Set the pipeline playing or paused, then issue the seek that waited, if any.
    State { playing: bool, queued: Option<SeekRequest> },
    /// Issue the seek that waited, if any.
    Queued(Option<SeekRequest>),
}

/// What follows a seek to where playback goes on.
#[derive(Debug, Clone, Copy, PartialEq, Eq, Structural)]
pub enum ResumeOutcome {
    /// The seek is on its way.
    Sent,
    /// It was refused: report the rate where it cannot be had, and set the pipeline
    /// playing or paused where it is.
    Refused { rate_error: bool, playing: bool },
}

/// What becomes of a pipeline error.
#[derive(Debug, Clone, Copy, PartialEq, Eq, Structural)]
pub enum ErrorReport {
    /// The error is of a session that is gone.
    Stale,
    /// The video goes on without its subtitle file.
    Subtitle,
    Fatal,
}

/// What a change of rate asks for.
#[derive(Debug, Clone, Copy, PartialEq, Eq, Structural)]
pub enum RateStep {
    /// The rate is the requested one already, or a running seek will bring it.
    Settled,
    /// Issue this seek.
    Issue(SeekRequest),
}

/// The player's side of playback.
pub struct Player {
    playback: FocusedPlayback,
    /// Whether other rates keep the pitch.
    pitch_preserving: bool,
    subtitles_default_on: bool,
}

/// Between the bounds, or at the nearer one.
pub open spec fn clamped(value: int, low: int, high: int) -> int {
    if value < low {
        low
    } else if value > high {
        high
    } else {
        value
    }
}

/// Where playback is, by the pending seek or else the pipeline.
pub open spec fn position_of(session: Session, now: u64, queried: Option<u64>) -> Option<int> {
    match session.seek.pending_at(now) {
        Some(request) => Some(request.position as int),
        None => match queried {
            Some(position) => Some(position as int),
            None => None,
        },
    }
}

/// Position and duration, once both are known.
pub open spec fn progress_of(
    session: Session,
    now: u64,
    duration: Option<u64>,
    queried: Option<u64>,
) -> Option<(int, int)> {
    match (duration, position_of(session, now, queried)) {
        (Some(length), Some(position)) => Some(
            (clamped(position, 0, length as int), length as int),
        ),
        _ => None,
    }
}

/// Where playback goes on after a rebuild: by the progress, else by the pipeline, else
/// at the start.
pub open spec fn kept_position(
    session: Session,
    now: u64,
    duration: Option<u64>,
    queried: Option<u64>,
) -> int {
    let position = match progress_of(session, now, duration, queried) {
        Some((position, _)) => position,
        None => match queried {
            Some(position) => position as int,
            None => 0,
        },
    };
    clamped(position, 0, LAST_POSITION as int)
}

/// The largest position, about 292 years.
pub const LAST_POSITION: u64 = 0x7fff_ffff_ffff_ffff;

impl Player {
    pub closed spec fn session(self) -> Session {
        self.playback@
    }

    pub closed spec fn keeps_pitch(self) -> bool {
        self.pitch_preserving
    }

    pub closed spec fn subtitles_on(self) -> bool {
        self.subtitles_default_on
    }

    pub closed spec fn wf(self) -> bool {
        self.playback.wf()
    }

    /// Whether only the session differs.
    pub open spec fn same_settings(self, other: Player) -> bool {
        &&& self.keeps_pitch() == other.keeps_pitch()
        &&& self.subtitles_on() == other.subtitles_on()
    }

    pub fn new(pitch_preserving: bool) -> (result: Player)
        ensures
            result.wf(),
            result.session() == Session::fresh(0, true),
            result.keeps_pitch() == pitch_preserving,
            result.subtitles_on(),
    {
        Player { playback: FocusedPlayback::new(), pitch_preserving, subtitles_default_on: true }
    }

    /// Starts a session for a video once the pipeline was torn down. A teardown
    /// that failed leaves the old session, which no longer plays. On success the
    /// caller hands the files to the pipeline and sets it playing.
    pub fn play(&mut self, path: &[u8], subtitle: Option<Vec<u8>>, torn_down: bool) -> (result:
        Result<(), PlayerError>)
        requires
            old(self).wf(),
        ensures
            final(self).wf(),
            final(self).same_settings(*old(self)),
            torn_down ==> result is Ok && final(self).session() == old(self).session().started(
                path@,
                path_text(subtitle),
                old(self).subtitles_on(),
            ),
            !torn_down ==> result == Err::<(), PlayerError>(PlayerError::Playback) && final(self).session() == (Session { playing: false, ..old(self).session() }),
    {
        if torn_down {
            self.playback.start_video(path, subtitle, self.subtitles_default_on);
            Ok(())
        } else {
            self.playback.set_playing(false);
            Err(PlayerError::Playback)
        }
    }

    /// Takes in whether the pipeline started playing.
    pub fn play_started(&mut self, accepted: bool) -> (result: Result<(), PlayerError>)
        requires
            old(self).wf(),
        ensures
            final(self).wf(),
            final(self).same_settings(*old(self)),
            accepted ==> result is Ok && final(self).session() == (Session {
                playing: true,
                ..old(self).session()
            }),
            !accepted ==> result == Err::<(), PlayerError>(PlayerError::Playback) && final(self).session() == old(self).session(),
    {
        if accepted {
            self.playback.playback_started();
            Ok(())
        } else {
            Err(PlayerError::Playback)
        }
    }

    /// Ends the session, whether or not the pipeline could be torn down.
    pub fn stop(&mut self, torn_down: bool) -> (result: Result<(), PlayerError>)
        requires
            old(self).wf(),
        ensures
            final(self).wf(),
            final(self).same_settings(*old(self)),
            final(self).session() == Session::fresh(
                crate::folder::following(old(self).session().generation),
                old(self).subtitles_on(),
            ),
            torn_down ==> result is Ok,
            !torn_down ==> result == Err::<(), PlayerError>(PlayerError::Playback),
    {
        self.playback.reset(self.subtitles_default_on);
        if torn_down {
            Ok(())
        } else {
            Err(PlayerError::Playback)
        }
    }

    /// Sets the initial subtitle policy for every newly opened video.
    pub fn set_subtitles_default(&mut self, enabled: bool)
        requires
            old(self).wf(),
        ensures
            final(self).wf(),
            final(self).keeps_pitch() == old(self).keeps_pitch(),
            final(self).subtitles_on() == enabled,
            final(self).session() == (if old(self).session().video is None {
                Session {
                    subtitle_choice: crate::player::playback::default_choice(enabled),
                    ..old(self).session()
                }
            } else {
                old(self).session()
            }),
    {
        self.subtitles_default_on = enabled;
        if self.playback.current_video().is_none() {
            self.playback.set_default_subtitles(enabled);
        }
    }

    pub fn has_external_subtitle(&self) -> (result: bool)
        ensures
            result == (self.session().external is Some),
    {
        self.playback.has_external_subtitle()
    }

    pub fn external_subtitle(&self) -> (result: Option<&[u8]>)
        ensures
            match result {
                Some(path) => self.session().external == Some(path@),
                None => self.session().external is None,
            },
    {
        self.playback.external_subtitle()
    }

    /// Whether the next video needs a pipeline of its own. The pipeline is reused, but
    /// not across external text pads, which it can hold on to: neither after a subtitle
    /// file nor for one.
    pub fn needs_replacement(&self, next_has_subtitle: bool) -> (result: bool)
        ensures
            result == (self.session().external is Some || next_has_subtitle),
    {
        self.has_external_subtitle() || next_has_subtitle
    }

    pub fn current_video(&self) -> (result: Option<&[u8]>)
        ensures
            match result {
                Some(path) => self.session().video == Some(path@),
                None => self.session().video is None,
            },
    {
        self.playback.current_video()
    }

    /// What attaching a subtitle file asks for.
    pub fn attach_subtitle(&self, path: &[u8]) -> (result: AttachPlan)
        ensures
            result == (if self.session().video is None {
                AttachPlan::NoVideo
            } else if self.session().external matches Some(external) && place(external) == place(
                path@,
            ) {
                AttachPlan::AlreadyAttached
            } else {
                AttachPlan::Rebuild
            }),
    {
        if self.playback.current_video().is_none() {
            return AttachPlan::NoVideo;
        }
        match self.playback.external_subtitle() {
            Some(external) => if same_path(external, path) {
                AttachPlan::AlreadyAttached
            } else {
                AttachPlan::Rebuild
            },
            None => AttachPlan::Rebuild,
        }
    }

    /// Falls back to the automatic choice where selecting the track of a file that
    /// is attached already was refused.
    pub fn reset_subtitle_choice(&mut self)
        requires
            old(self).wf(),
        ensures
            final(self).wf(),
            final(self).same_settings(*old(self)),
            final(self).session() == (Session {
                subtitle_choice: Choice::Automatic,
                last_visible: Choice::Automatic,
                ..old(self).session()
            }),
    {
        self.playback.reset_subtitle_choice();
    }

    /// Takes in whether the pipeline was torn down to attach a file. The session goes
    /// on at the position, rate and play state that it has, by what was known of them
    /// before the teardown; without the teardown nothing changes.
    pub fn rebuild_in_place(
        &mut self,
        path: &[u8],
        now: u64,
        duration: Option<u64>,
        queried: Option<u64>,
        torn_down: bool,
    ) -> (result: Result<(), PlayerError>)
        requires
            old(self).wf(),
        ensures
            final(self).wf(),
            final(self).same_settings(*old(self)),
            torn_down ==> result is Ok && final(self).session() == old(self).session().rebuilt(
                kept_position(old(self).session(), now, duration, queried) as i64,
                old(self).session().requested_rate(now),
                old(self).session().playing,
                Some(path@),
            ),
            !torn_down ==> result == Err::<(), PlayerError>(PlayerError::Playback)
                && final(self).session() == old(self).session(),
    {
        let position: u64 = match self.progress(now, duration, queried) {
            Some((position, _)) => position,
            None => match queried {
                Some(position) => position,
                None => 0,
            },
        };
        let position: i64 = if position > LAST_POSITION {
            LAST_POSITION as i64
        } else {
            position as i64
        };
        let rate: u32 = self.playback.requested_rate(now);
        let play: bool = self.playback.is_playing();
        self.rebuild_with(path, position, rate, play, torn_down)
    }

    /// Takes in whether the pipeline was torn down to attach a file. The session then
    /// goes on as it is told; without the teardown nothing changes.
    pub fn rebuild_with(
        &mut self,
        path: &[u8],
        position: i64,
        rate: u32,
        play: bool,
        torn_down: bool,
    ) -> (result: Result<(), PlayerError>)
        requires
            old(self).wf(),
        ensures
            final(self).wf(),
            final(self).same_settings(*old(self)),
            torn_down ==> result is Ok && final(self).session() == old(self).session().rebuilt(
                position,
                rate,
                play,
                Some(path@),
            ),
            !torn_down ==> result == Err::<(), PlayerError>(PlayerError::Playback)
                && final(self).session() == old(self).session(),
    {
        if torn_down {
            self.playback.prepare_subtitle_rebuild(position, rate, play, Some(copy_bytes(path)));
            Ok(())
        } else {
            Err(PlayerError::Playback)
        }
    }

    /// Whether the video can be restored without its subtitle file, and the video.
    pub fn recoverable_video(&self) -> (result: Option<Vec<u8>>)
        ensures
            match result {
                Some(path) => self.session().external is Some && self.session().video == Some(path@),
                None => self.session().external is None || self.session().video is None,
            },
    {
        if !self.playback.has_external_subtitle() {
            return None;
        }
        match self.playback.current_video() {
            Some(path) => Some(copy_bytes(path)),
            None => None,
        }
    }

    /// Takes in whether the pipeline was torn down to drop the subtitle file. A
    /// rebuild that was under way goes on where it was headed; otherwise the video
    /// starts over. The file is forgotten before the retry, so a failure of the
    /// video itself is not retried again.
    pub fn recover_without_external(&mut self, torn_down: bool) -> (result: bool)
        requires
            old(self).wf(),
        ensures
            final(self).wf(),
            final(self).same_settings(*old(self)),
            result == torn_down,
            torn_down ==> final(self).session() == match old(self).session().resume {
                Some(state) => old(self).session().rebuilt(
                    state.position,
                    state.rate,
                    state.play_after_seek,
                    None,
                ),
                None => old(self).session().rebuilt(0, old(self).session().rate, true, None),
            },
            !torn_down ==> final(self).session() == (Session {
                playing: false,
                ..old(self).session()
            }),
    {
        if !torn_down {
            self.playback.set_playing(false);
            return false;
        }
        let (position, rate, play) = self.playback.resume_point();
        self.playback.prepare_subtitle_rebuild(position, rate, play, None);
        true
    }

    /// Takes in whether the pipeline started again after a rebuild. Where it did
    /// not, nothing waits to resume and nothing plays; the caller tears it down.
    pub fn rebuild_started(&mut self, accepted: bool) -> (result: bool)
        requires
            old(self).wf(),
        ensures
            final(self).wf(),
            final(self).same_settings(*old(self)),
            result == accepted,
            final(self).session() == (if accepted {
                old(self).session()
            } else {
                Session { resume: None, playing: false, ..old(self).session() }
            }),
    {
        if !accepted {
            self.playback.cancel_resume();
            self.playback.set_playing(false);
        }
        accepted
    }

    pub fn subtitle_snapshot(&self) -> (result: SubtitleSnapshot)
        requires
            self.wf(),
        ensures
            shows_subtitles(result, self.session()),
    {
        self.playback.subtitle_snapshot()
    }

    pub fn audio_snapshot(&self) -> (result: AudioSnapshot)
        requires
            self.wf(),
        ensures
            shows_audio(result, self.session()),
    {
        self.playback.audio_snapshot()
    }

    /// The streams to select for an audio choice. None where the choice is not
    /// available, or there is nothing to select.
    pub fn choose_audio(&self, choice: &AudioChoice) -> (result: Option<Vec<String>>)
        requires
            self.wf(),
        ensures
            match result {
                Some(ids) => self.session().audio_available(choice@) && texts(ids@)
                    == self.session().selection(Some(choice@), None) && ids@.len() > 0,
                None => !self.session().audio_available(choice@) || self.session().selection(
                    Some(choice@),
                    None,
                ).len() == 0,
            },
    {
        match self.playback.requested_audio_choice(choice) {
            Some(ids) => {
                assert(texts(ids@).len() == ids@.len());
                if ids.len() > 0 {
                    Some(ids)
                } else {
                    None
                }
            },
            None => None,
        }
    }

    /// Takes in whether the pipeline took the selection for an audio choice.
    pub fn audio_chosen(&mut self, choice: AudioChoice, sent: bool)
        requires
            old(self).wf(),
        ensures
            final(self).wf(),
            final(self).same_settings(*old(self)),
            final(self).session() == (if sent {
                Session { audio_choice: choice@, ..old(self).session() }
            } else {
                old(self).session()
            }),
    {
        if sent {
            self.playback.set_audio_choice(choice);
        }
    }

    /// The streams to select for a subtitle choice. None where the choice is not
    /// available, or there is nothing to select.
    pub fn choose_subtitle(&self, choice: &SubtitleChoice) -> (result: Option<Vec<String>>)
        requires
            self.wf(),
        ensures
            match result {
                Some(ids) => self.session().subtitle_available(choice@) && texts(ids@)
                    == self.session().selection(None, Some(choice@)) && ids@.len() > 0,
                None => !self.session().subtitle_available(choice@) || self.session().selection(
                    None,
                    Some(choice@),
                ).len() == 0,
            },
    {
        match self.playback.requested_subtitle_choice(choice) {
            Some(ids) => {
                assert(texts(ids@).len() == ids@.len());
                if ids.len() > 0 {
                    Some(ids)
                } else {
                    None
                }
            },
            None => None,
        }
    }

    /// Takes in whether the pipeline took the selection for a subtitle choice.
    pub fn subtitle_chosen(&mut self, choice: SubtitleChoice, sent: bool)
        requires
            old(self).wf(),
        ensures
            final(self).wf(),
            final(self).same_settings(*old(self)),
            final(self).session() == (if sent {
                old(self).session().with_subtitle_choice(choice@)
            } else {
                old(self).session()
            }),
    {
        if sent {
            self.playback.set_subtitle_choice(choice);
        }
    }

    /// The choice that turns subtitles off or on, where there are any.
    pub fn toggle_subtitles(&self) -> (result: Option<SubtitleChoice>)
        requires
            self.wf(),
        ensures
            match result {
                Some(choice) => self.session().subtitle_tracks.len() > 0 && choice@
                    == self.session().toggled(),
                None => self.session().subtitle_tracks.len() == 0,
            },
    {
        self.playback.subtitle_toggle_choice()
    }

    /// The choice after the present one, where there are subtitles.
    pub fn cycle_subtitles(&self) -> (result: Option<SubtitleChoice>)
        requires
            self.wf(),
        ensures
            match result {
                Some(choice) => self.session().subtitle_tracks.len() > 0 && choice@
                    == self.session().cycled(),
                None => self.session().subtitle_tracks.len() == 0,
            },
    {
        self.playback.subtitle_cycle_choice()
    }

    /// True when playback is running or the user has asked it to run.
    pub fn is_playing(&self) -> (result: bool)
        ensures
            result == self.session().playing,
    {
        self.playback.is_playing()
    }

    /// Takes in whether the pipeline changed between playing and paused. Returns
    /// whether it plays now; a refused change is not committed.
    pub fn toggle_pause(&mut self, accepted: bool) -> (result: Result<bool, PlayerError>)
        requires
            old(self).wf(),
        ensures
            final(self).wf(),
            final(self).same_settings(*old(self)),
            accepted ==> result == Ok::<bool, PlayerError>(!old(self).session().playing) && final(self).session() == (Session {
                playing: !old(self).session().playing,
                ..old(self).session()
            }),
            !accepted ==> result == Err::<bool, PlayerError>(PlayerError::Playback) && final(self).session() == old(self).session(),
    {
        if accepted {
            let playing = !self.playback.is_playing();
            self.playback.set_playing(playing);
            Ok(playing)
        } else {
            Err(PlayerError::Playback)
        }
    }

    /// The duration of the video: the one that is known, or else the one that the
    /// pipeline tells, which is remembered. Nothing, or no length, is no duration.
    pub fn duration(&mut self, queried: Option<u64>) -> (result: Option<u64>)
        requires
            old(self).wf(),
        ensures
            final(self).wf(),
            final(self).same_settings(*old(self)),
            result == match (old(self).session().duration, queried) {
                (Some(length), _) => Some(length),
                (None, Some(length)) => if length > 0 {
                    Some(length)
                } else {
                    None
                },
                (None, None) => None,
            },
            final(self).session() == (Session {
                duration: result,
                ..old(self).session()
            }),
    {
        match self.playback.cached_duration() {
            Some(length) => Some(length),
            None => match queried {
                Some(length) => if length > 0 {
                    self.playback.cache_duration(length);
                    Some(length)
                } else {
                    None
                },
                None => None,
            },
        }
    }

    /// The duration that is known, if any.
    pub fn known_duration(&self) -> (result: Option<u64>)
        ensures
            result == self.session().duration,
    {
        self.playback.cached_duration()
    }

    /// Position and duration. While a seek is in flight the position is its
    /// target, so what is shown tracks the user instead of the pipeline.
    pub fn progress(&self, now: u64, duration: Option<u64>, queried: Option<u64>) -> (result: Option<
        (u64, u64),
    >)
        ensures
            match result {
                Some((position, length)) => progress_of(
                    self.session(),
                    now,
                    duration,
                    queried,
                ) == Some((position as int, length as int)),
                None => progress_of(self.session(), now, duration, queried) is None,
            },
            result matches Some((position, length)) ==> position <= length && duration == Some(length),
            duration is None ==> result is None,
            self.session().seek.pending_at(now) is None && queried is None ==> result is None,
            match (result, self.session().seek.pending_at(now)) {
                (Some((position, length)), Some(request)) => {
                    &&& request.position <= 0 ==> position == 0
                    &&& 0 <= request.position <= length ==> position == request.position
                    &&& request.position > length ==> position == length
                },
                (Some((position, length)), None) => {
                    &&& queried is Some
                    &&& queried->0 <= length ==> position == queried->0
                    &&& queried->0 > length ==> position == length
                },
                _ => true,
            },
    {
        let length = match duration {
            Some(length) => length,
            None => return None,
        };
        let position: u64 = match self.playback.pending_seek_position(now) {
            Some(position) => if position < 0 {
                0
            } else {
                position as u64
            },
            None => match queried {
                Some(position) => position,
                None => return None,
            },
        };
        Some(
            (
                if position > length {
                    length
                } else {
                    position
                },
                length,
            ),
        )
    }

    /// The requested rate, including a change that waits behind a seek.
    pub fn playback_rate(&self, now: u64) -> (result: u32)
        ensures
            result == self.session().requested_rate(now),
    {
        self.playback.requested_rate(now)
    }

    /// Asks for a position. At most one seek is in flight: a request that arrives
    /// during one supersedes any other that waits. Returns the seek to issue now.
    pub fn seek_to(&mut self, position: i64, now: u64) -> (result: Option<SeekRequest>)
        requires
            old(self).wf(),
        ensures
            final(self).wf(),
            final(self).same_settings(*old(self)),
            ({
                let request = SeekRequest {
                    position,
                    rate: old(self).session().requested_rate(now),
                };
                &&& final(self).session() == (Session {
                    seek: old(self).session().seek.requested(request, now),
                    ..old(self).session()
                })
                &&& result == (if old(self).session().seek.running_at(now) is None {
                    Some(request)
                } else {
                    None
                })
            }),
    {
        let request = SeekRequest::new(position, self.playback.requested_rate(now));
        if self.playback.request_seek(request, now) {
            Some(request)
        } else {
            None
        }
    }

    /// Seeks by a distance, within the video. Distances stack: they are measured
    /// from the pending target, so repeating the key moves the full distance.
    pub fn seek_by(
        &mut self,
        delta: i64,
        now: u64,
        duration: Option<u64>,
        queried: Option<u64>,
    ) -> (result: Option<SeekRequest>)
        requires
            old(self).wf(),
            duration matches Some(length) ==> length <= LAST_POSITION,
        ensures
            final(self).wf(),
            final(self).same_settings(*old(self)),
            match progress_of(old(self).session(), now, duration, queried) {
                Some((position, length)) => {
                    let target = clamped(position + delta, 0, length);
                    let request = SeekRequest {
                        position: target as i64,
                        rate: old(self).session().requested_rate(now),
                    };
                    &&& final(self).session() == (Session {
                        seek: old(self).session().seek.requested(request, now),
                        ..old(self).session()
                    })
                    &&& result == (if old(self).session().seek.running_at(now) is None {
                        Some(request)
                    } else {
                        None
                    })
                },
                None => result is None && final(self).session() == old(self).session(),
            },
            result matches Some(request) ==> (duration matches Some(length) && 0 <= request.position
                <= length),
            match (result, progress_of(old(self).session(), now, duration, queried)) {
                (Some(request), Some((position, length))) => {
                    &&& position + delta < 0 ==> request.position == 0
                    &&& 0 <= position + delta <= length ==> request.position == position + delta
                    &&& position + delta > length ==> request.position == length
                    &&& delta <= 0 ==> request.position <= position
                    &&& delta >= 0 ==> request.position >= position
                },
                _ => true,
            },
    {
        match self.progress(now, duration, queried) {
            Some((position, length)) => {
                let wide: i128 = position as i128 + delta as i128;
                let target: i64 = if wide < 0 {
                    0
                } else if wide > length as i128 {
                    length as i64
                } else {
                    wide as i64
                };
                self.seek_to(target, now)
            },
            None => None,
        }
    }

    /// Notes that a seek goes out to the pipeline.
    pub fn issue_seek(&mut self, request: SeekRequest, now: u64)
        requires
            old(self).wf(),
        ensures
            final(self).wf(),
            final(self).same_settings(*old(self)),
            final(self).session() == (Session {
                seek: SeekState { in_flight: Some((request, now)), queued: None },
                ..old(self).session()
            }),
    {
        self.playback.begin_seek(request, now);
    }

    /// Takes in whether the pipeline accepted a seek. Returns whether a change of
    /// rate was refused with it.
    pub fn seek_answered(&mut self, request: SeekRequest, sent: bool) -> (result: bool)
        requires
            old(self).wf(),
        ensures
            final(self).wf(),
            final(self).same_settings(*old(self)),
            result == (!sent && request.rate != old(self).session().rate),
            final(self).session() == (if sent {
                Session { rate: request.rate, ..old(self).session() }
            } else {
                Session {
                    seek: SeekState { in_flight: None, ..old(self).session().seek },
                    ..old(self).session()
                }
            }),
    {
        if sent {
            self.playback.accept_seek(request);
            false
        } else {
            let refused_rate = request.rate() != self.playback.accepted_rate();
            self.playback.seek_refused();
            refused_rate
        }
    }

    /// Asks for a rate without moving the visible position. `position` is where
    /// playback is, as far as it is known.
    pub fn set_playback_rate(&mut self, rate: u32, now: u64, position: Option<i64>) -> (result:
        Result<RateStep, PlaybackRateError>)
        requires
            old(self).wf(),
        ensures
            final(self).wf(),
            final(self).same_settings(*old(self)),
            ({
                let session = old(self).session();
                let refused = |error: PlaybackRateError|
                    result == Err::<RateStep, PlaybackRateError>(error) && final(self).session()
                        == session;
                if !rates().contains(rate) {
                    refused(PlaybackRateError::SeekRefused)
                } else if rate == session.requested_rate(now) {
                    result == Ok::<RateStep, PlaybackRateError>(RateStep::Settled) && final(self).session() == session
                } else if !old(self).keeps_pitch() && rate != NORMAL_RATE {
                    refused(PlaybackRateError::PitchFilterUnavailable)
                } else {
                    match position {
                        None => refused(PlaybackRateError::PositionUnavailable),
                        Some(at) => {
                            let request = SeekRequest { position: at, rate };
                            &&& final(self).session() == (Session {
                                seek: session.seek.requested(request, now),
                                ..session
                            })
                            &&& result == Ok::<RateStep, PlaybackRateError>(
                                if session.seek.running_at(now) is None {
                                    RateStep::Issue(request)
                                } else {
                                    RateStep::Settled
                                },
                            )
                        },
                    }
                }
            }),
    {
        if !is_rate(rate) {
            return Err(PlaybackRateError::SeekRefused);
        }
        if rate == self.playback.requested_rate(now) {
            return Ok(RateStep::Settled);
        }
        if !self.pitch_preserving && rate != NORMAL_RATE {
            return Err(PlaybackRateError::PitchFilterUnavailable);
        }
        match position {
            None => Err(PlaybackRateError::PositionUnavailable),
            Some(at) => {
                let request = SeekRequest::new(at, rate);
                if self.playback.request_seek(request, now) {
                    Ok(RateStep::Issue(request))
                } else {
                    Ok(RateStep::Settled)
                }
            },
        }
    }

    /// Takes in the answers to starting over: whether the seek was taken, or waits
    /// behind another, and whether the pipeline plays. A refusal of either leaves
    /// the video not playing.
    pub fn rewind(&mut self, sought: bool, resumed: bool) -> (result: Result<(), PlayerError>)
        requires
            old(self).wf(),
        ensures
            final(self).wf(),
            final(self).same_settings(*old(self)),
            final(self).session() == (Session {
                playing: sought && resumed,
                ..old(self).session()
            }),
            result == (if !sought {
                Err::<(), PlayerError>(PlayerError::SeekRefused)
            } else if !resumed {
                Err(PlayerError::Playback)
            } else {
                Ok(())
            }),
    {
        self.playback.set_playing(sought && resumed);
        if !sought {
            Err(PlayerError::SeekRefused)
        } else if !resumed {
            Err(PlayerError::Playback)
        } else {
            Ok(())
        }
    }

    /// Takes in that the pipeline has settled: a rebuild goes on in steps, and a
    /// seek that waited can go out.
    pub fn async_done(&mut self) -> (result: AsyncPlan)
        requires
            old(self).wf(),
        ensures
            final(self).wf(),
            final(self).same_settings(*old(self)),
            ({
                let session = old(self).session();
                match session.settled_action() {
                    ResumeAction::Seek { position, rate, resume_playing } => if position > 0 || rate
                        != session.rate {
                        &&& result == AsyncPlan::Resume {
                            request: SeekRequest { position, rate },
                            resume_playing,
                        }
                        &&& final(self).session() == session.settled()
                    } else {
                        &&& result == AsyncPlan::State { playing: resume_playing, queued: None }
                        &&& final(self).session() == (Session { resume: None, ..session })
                    },
                    ResumeAction::Finish { resume_playing } => {
                        &&& result == AsyncPlan::State {
                            playing: resume_playing,
                            queued: session.seek.queued,
                        }
                        &&& final(self).session() == (Session {
                            seek: SeekState::idle(),
                            ..session.settled()
                        })
                    },
                    ResumeAction::Nothing => {
                        &&& result == AsyncPlan::Queued(session.seek.queued)
                        &&& final(self).session() == (Session {
                            seek: SeekState::idle(),
                            ..session
                        })
                    },
                }
            }),
    {
        match self.playback.observe_async_done() {
            ResumeAction::Seek { position, rate, resume_playing } => {
                if position > 0 || rate != self.playback.accepted_rate() {
                    AsyncPlan::Resume {
                        request: SeekRequest::new(position, rate),
                        resume_playing,
                    }
                } else {
                    self.playback.cancel_resume();
                    AsyncPlan::State { playing: resume_playing, queued: None }
                }
            },
            ResumeAction::Finish { resume_playing } => AsyncPlan::State {
                playing: resume_playing,
                queued: self.playback.finish_seek(),
            },
            ResumeAction::Nothing => AsyncPlan::Queued(self.playback.finish_seek()),
        }
    }

    /// Takes in whether the seek to where playback goes on was taken.
    pub fn resume_answered(&mut self, request: SeekRequest, resume_playing: bool, sent: bool) -> (result:
        ResumeOutcome)
        requires
            old(self).wf(),
        ensures
            final(self).wf(),
            final(self).same_settings(*old(self)),
            sent ==> result == ResumeOutcome::Sent && final(self).session() == (Session {
                rate: request.rate,
                ..old(self).session()
            }),
            !sent ==> result == (ResumeOutcome::Refused {
                rate_error: request.rate != old(self).session().rate,
                playing: resume_playing,
            }) && final(self).session() == (Session {
                seek: SeekState { in_flight: None, ..old(self).session().seek },
                resume: None,
                ..old(self).session()
            }),
    {
        let rate_error = self.seek_answered(request, sent);
        if sent {
            ResumeOutcome::Sent
        } else {
            self.playback.cancel_resume();
            ResumeOutcome::Refused { rate_error, playing: resume_playing }
        }
    }

    /// Takes in whether the pipeline was set playing or paused. A refused change is
    /// not committed; what is returned then identifies the session, so that the
    /// failure can be reported later, if that session is still there.
    pub fn state_answered(&mut self, playing: bool, accepted: bool) -> (result: Option<ErrorContext>)
        requires
            old(self).wf(),
        ensures
            final(self).wf(),
            final(self).same_settings(*old(self)),
            final(self).session() == (if accepted {
                Session { playing, ..old(self).session() }
            } else {
                old(self).session()
            }),
            match result {
                Some(context) => !accepted && context.is_of(old(self).session())
                    && context.generation() == old(self).session().generation && context.external()
                    == old(self).session().external,
                None => accepted,
            },
    {
        if accepted {
            self.playback.set_playing(playing);
            None
        } else {
            Some(self.playback.context())
        }
    }

    /// Begins to handle a pipeline error, unless one is being handled.
    pub fn begin_error(&mut self) -> (result: Option<ErrorContext>)
        requires
            old(self).wf(),
        ensures
            final(self).wf(),
            final(self).same_settings(*old(self)),
            final(self).session() == (Session { error_pending: true, ..old(self).session() }),
            match result {
                Some(context) => !old(self).session().error_pending && context.is_of(
                    old(self).session(),
                ) && context.generation() == old(self).session().generation && context.external()
                    == old(self).session().external,
                None => old(self).session().error_pending,
            },
    {
        self.playback.begin_error()
    }

    /// Identifies the session, for a report that is made later.
    pub fn context(&self) -> (result: ErrorContext)
        ensures
            result.is_of(self.session()),
            result.generation() == self.session().generation,
            result.external() == self.session().external,
    {
        self.playback.context()
    }

    pub fn error_is_current(&self, context: &ErrorContext) -> (result: bool)
        ensures
            result == context.is_of(self.session()),
    {
        self.playback.error_is_current(context)
    }

    /// Ends the handling of an error. `current` says that its session was still
    /// there, `recovered` that the video goes on without its subtitle file.
    pub fn settle_error(&mut self, context: &ErrorContext, current: bool, recovered: bool) -> (result:
        ErrorReport)
        requires
            old(self).wf(),
        ensures
            final(self).wf(),
            final(self).same_settings(*old(self)),
            final(self).session() == (if old(self).session().generation == context.generation() {
                Session { error_pending: false, ..old(self).session() }
            } else {
                old(self).session()
            }),
            result == (if !current {
                ErrorReport::Stale
            } else if recovered {
                ErrorReport::Subtitle
            } else {
                ErrorReport::Fatal
            }),
    {
        self.playback.finish_error(context);
        if !current {
            ErrorReport::Stale
        } else if recovered {
            ErrorReport::Subtitle
        } else {
            ErrorReport::Fatal
        }
    }

    /// Takes in the streams of the video.
    pub fn streams_found(&mut self, streams: Vec<StreamInfo>) -> (result: StreamUpdate)
        requires
            old(self).wf(),
        ensures
            final(self).wf(),
            final(self).same_settings(*old(self)),
            final(self).session() == old(self).session().with_collection(streams@),
            result.audio_count == final(self).session().audio_tracks.len(),
            result.subtitle_count == final(self).session().subtitle_tracks.len(),
            match result.selection {
                Some(ids) => (final(self).session().audio_choice != Choice::Automatic || final(self).session().subtitle_choice != Choice::Automatic) && texts(ids@) == final(self).session().selection(None, None),
                None => final(self).session().audio_choice == Choice::Automatic && final(self).session().subtitle_choice == Choice::Automatic,
            },
            shows_audio(result.audio, final(self).session()),
            shows_subtitles(result.subtitles, final(self).session()),
    {
        self.playback.observe_stream_collection(streams)
    }

    /// Takes in which streams are selected.
    pub fn streams_selected(&mut self, selected: Vec<String>) -> (result: (
        AudioSnapshot,
        SubtitleSnapshot,
    ))
        requires
            old(self).wf(),
        ensures
            final(self).wf(),
            final(self).same_settings(*old(self)),
            final(self).session() == (Session {
                selected: final(self).session().selected,
                ..old(self).session()
            }),
            forall|id: Seq<char>|
                final(self).session().selected.contains(id) <==> texts(selected@).contains(id),
            forall|i: int, j: int|
                0 <= i < j < final(self).session().selected.len() ==> crate::keymap::text_before(
                    #[trigger] final(self).session().selected[i],
                    #[trigger] final(self).session().selected[j],
                ),
            shows_audio(result.0, final(self).session()),
            shows_subtitles(result.1, final(self).session()),
    {
        self.playback.observe_streams_selected(selected)
    }

    /// Takes in that the duration has changed.
    pub fn duration_changed(&mut self)
        requires
            old(self).wf(),
        ensures
            final(self).wf(),
            final(self).same_settings(*old(self)),
            final(self).session() == (Session { duration: None, ..old(self).session() }),
    {
        self.playback.invalidate_duration();
    }
}

/// The session once a seek was asked for: it waits while another runs, and else
/// goes out.
pub open spec fn seeking(session: Session, request: SeekRequest, now: u64) -> Session {
    if session.seek.running_at(now) is Some {
        Session { seek: session.seek.requested(request, now), ..session }
    } else {
        Session { seek: SeekState { in_flight: Some((request, now)), queued: None }, ..session }
    }
}

/// Seeking by two distances in a row moves by both, as far as the video goes:
/// the second is measured from where the first is headed.
pub proof fn seek_distances_stack(
    session: Session,
    now: u64,
    length: u64,
    queried: Option<u64>,
    first: i64,
    second: i64,
)
    requires
        progress_of(session, now, Some(length), queried) is Some,
        length <= LAST_POSITION,
    ensures
        ({
            let (position, _) = progress_of(session, now, Some(length), queried)->0;
            let rate = session.requested_rate(now);
            let target = clamped(position + first, 0, length as int);
            let further = clamped(target + second, 0, length as int);
            let request = SeekRequest { position: target as i64, rate };
            let after = seeking(session, request, now);
            let next = SeekRequest { position: further as i64, rate };
            let last = seeking(after, next, now);
            &&& progress_of(after, now, Some(length), queried) == Some((target, length as int))
            &&& progress_of(last, now, Some(length), queried) == Some((further, length as int))
            &&& last.requested_rate(now) == rate
        }),
{
}

/// Where playback is: at the target of a seek that is on its way, else where the pipeline
/// says, and always within the video.
pub proof fn progress_stays_within_the_video(
    session: Session,
    now: u64,
    length: u64,
    queried: Option<u64>,
)
    ensures
        ({
            let progress = progress_of(session, now, Some(length), queried);
            &&& progress is None <==> session.seek.pending_at(now) is None && queried is None
            &&& progress_of(session, now, None, queried) is None
            &&& progress matches Some((position, whole)) ==> whole == length && 0 <= position
                <= length
            &&& session.seek.pending_at(now) matches Some(request) ==> (0 <= request.position
                <= length ==> progress == Some((request.position as int, length as int)))
                && (request.position < 0 ==> progress == Some((0int, length as int))) && (
            request.position > length ==> progress == Some((length as int, length as int)))
            &&& session.seek.pending_at(now) is None ==> (queried matches Some(at) ==> (at <= length
                ==> progress == Some((at as int, length as int))) && (at > length ==> progress
                == Some((length as int, length as int))))
        }),
{
}

/// Seeking by a distance goes the way that the distance points and never leaves the
/// video: back past the start is the start, on past the end is the end, and anything
/// between is reached exactly.
pub proof fn distances_are_kept_within_the_video(position: int, length: int, delta: int)
    requires
        0 <= position <= length,
    ensures
        ({
            let target = clamped(position + delta, 0, length);
            &&& 0 <= target <= length
            &&& position + delta < 0 ==> target == 0
            &&& position + delta > length ==> target == length
            &&& 0 <= position + delta <= length ==> target == position + delta
            &&& delta <= 0 ==> target <= position
            &&& delta >= 0 ==> target >= position
        }),
{
}

/// A rebuild goes on at the place that was shown, else where the pipeline was, else at
/// the start.
pub proof fn rebuilds_keep_the_place(
    session: Session,
    now: u64,
    duration: Option<u64>,
    queried: Option<u64>,
)
    ensures
        ({
            let kept = kept_position(session, now, duration, queried);
            &&& 0 <= kept <= 0x7fff_ffff_ffff_ffff
            &&& progress_of(session, now, duration, queried) matches Some((position, _)) ==> (
            position <= 0x7fff_ffff_ffff_ffff ==> kept == position)
            &&& progress_of(session, now, duration, queried) is None ==> (queried matches Some(at)
                ==> (at <= 0x7fff_ffff_ffff_ffff ==> kept == at))
            &&& progress_of(session, now, duration, queried) is None && queried is None ==> kept
                == 0
        }),
{
}

/// The rates go up from half to double speed, with the normal one among them.
pub proof fn rates_go_up(left: int, right: int)
    requires
        0 <= left < right < rates().len(),
    ensures
        rates().len() == 6,
        rates()[left] < rates()[right],
        rates()[0] == 50,
        rates()[5] == 200,
        rates().contains(NORMAL_RATE),
        NORMAL_RATE == 100,
        rates().contains(75),
        rates().contains(125),
        rates().contains(150),
{
    assert(rates()[1] == 75 && rates()[2] == 100 && rates()[3] == 125 && rates()[4] == 150);
}

/// What a failure of the player says.
pub proof fn player_failures_are_told(path: Seq<char>, source: Seq<char>)
    ensures
        PlayerError::Init.text(path, source) == "GStreamer init failed: "@ + source,
        PlayerError::SinkUnavailable.text(path, source) == "gtk4paintablesink unavailable: "@
            + source,
        PlayerError::PlaybinUnavailable.text(path, source) == "playbin3 unavailable: "@ + source,
        PlayerError::MissingBus.text(path, source) == "playbin has no bus"@,
        PlayerError::BusWatch.text(path, source) == "cannot watch pipeline bus: "@ + source,
        PlayerError::Uri.text(path, source) == "cannot build uri for "@ + path + ": "@ + source,
        PlayerError::Playback.text(path, source) == "cannot start playback of "@ + path + ": "@
            + source,
        PlayerError::SeekRefused.text(path, source) == "this video cannot be rewound"@,
        PlayerError::SubtitleFile.text(path, source) == "cannot read subtitle "@ + path + ": "@
            + source,
{
}

/// Players have the same settings where both their pitch and their subtitles agree.
pub proof fn settings_are_pitch_and_subtitles(left: Player, right: Player)
    ensures
        left.keeps_pitch() != right.keeps_pitch() ==> !left.same_settings(right),
        left.subtitles_on() != right.subtitles_on() ==> !left.same_settings(right),
        left.same_settings(left),
{
}

}
