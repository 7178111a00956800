//! The focused playback session: transport, bounded seeking, rate requests,
//! stream choices, sidecar recovery sequencing, and generations.
//!
//! Positions are nanoseconds, rates are hundredths, and clock readings are
//! milliseconds.
use vstd::prelude::*;

use crate::folder::{following, lossy, lossy_text};
use crate::keymap::KeyMap;
use crate::paths::{copy_bytes, file_name, file_name_of, place, same_path};
use crate::player::tracks::{
    audio_views, subtitle_views, AudioChoice, AudioSnapshot, AudioTrack, Choice, SubtitleChoice, SubtitleSnapshot,
    SubtitleTrack, Track,
};
use crate::text::{decimal_digits, push_decimal, same_text};

verus! {

/// Safety net: a seek that was never answered after this long is lost, and stops
/// being reported as the position.
pub const SEEK_SETTLE: u64 = 1500;

/// The normal rate, in hundredths.
pub const NORMAL_RATE: u32 = 100;

#[derive(Debug, Clone, Copy, PartialEq, Eq, Structural)]
pub enum PlaybackRateError {
    PitchFilterUnavailable,
    PositionUnavailable,
    SeekRefused,
}

impl PlaybackRateError {
    pub open spec fn text(self) -> Seq<char> {
        match self {
            PlaybackRateError::PitchFilterUnavailable => "playback speed requires the GStreamer scaletempo plugin"@,
            PlaybackRateError::PositionUnavailable => "playback speed is not ready yet"@,
            PlaybackRateError::SeekRefused => "this video cannot change playback speed"@,
        }
    }

    pub fn describe(self) -> (result: String)
        ensures
            result@ == self.text(),
    {
        match self {
            PlaybackRateError::PitchFilterUnavailable => "playback speed requires the GStreamer scaletempo plugin".to_owned(),
            PlaybackRateError::PositionUnavailable => "playback speed is not ready yet".to_owned(),
            PlaybackRateError::SeekRefused => "this video cannot change playback speed".to_owned(),
        }
    }
}

#[derive(Debug, Clone, Copy, PartialEq, Eq, Structural)]
pub enum ResumeStage {
    Preroll,
    Seek,
}

/// What to do once the pipeline has settled.
#[derive(Debug, Clone, Copy, PartialEq, Eq, Structural)]
pub enum ResumeAction {
    Seek { position: i64, rate: u32, resume_playing: bool },
    Finish { resume_playing: bool },
    Nothing,
}

/// Where playback goes on after the pipeline was rebuilt.
#[derive(Debug, Clone, Copy, PartialEq, Eq, Structural)]
pub struct ResumeState {
    pub position: i64,
    pub rate: u32,
    pub play_after_seek: bool,
    pub stage: ResumeStage,
}

/// A position to go to, and the rate to go on with.
#[derive(Debug, Clone, Copy, PartialEq, Eq, Structural)]
pub struct SeekRequest {
    pub position: i64,
    pub rate: u32,
}

impl SeekRequest {
    pub fn new(position: i64, rate: u32) -> (result: Self)
        ensures
            result.position == position,
            result.rate == rate,
    {
        SeekRequest { position, rate }
    }

    pub fn rate(self) -> (result: u32)
        ensures
            result == self.rate,
    {
        self.rate
    }

    /// The position that is asked of the pipeline.
    pub fn target(self) -> (result: u64)
        ensures
            result as int == (if self.position < 0 {
                0int
            } else {
                self.position as int
            }),
    {
        if self.position < 0 {
            0
        } else {
            self.position as u64
        }
    }
}

/// A flushing seek only answers position queries with the new position once the
/// pipeline has settled; until then it still reports where it was. `in_flight`
/// covers that gap, and `queued` coalesces the positions that arrive while a
/// seek is running: issuing them all would leave the picture trailing the
/// pointer.
#[derive(Debug, Clone, Copy, PartialEq, Eq)]
pub struct SeekState {
    /// The seek on its way, and when it was issued.
    pub in_flight: Option<(SeekRequest, u64)>,
    pub queued: Option<SeekRequest>,
}

impl SeekState {
    pub open spec fn idle() -> SeekState {
        SeekState { in_flight: None, queued: None }
    }

    /// The in-flight seek, unless it is old enough to count as lost.
    pub open spec fn running_at(self, now: u64) -> Option<SeekRequest> {
        match self.in_flight {
            Some((request, at)) => if now < at + SEEK_SETTLE {
                Some(request)
            } else {
                None
            },
            None => None,
        }
    }

    /// Where playback is headed, while it is still on its way there.
    pub open spec fn pending_at(self, now: u64) -> Option<SeekRequest> {
        match self.queued {
            Some(request) => Some(request),
            None => self.running_at(now),
        }
    }

    /// The state after a request: it waits while a seek runs.
    pub open spec fn requested(self, request: SeekRequest, now: u64) -> SeekState {
        if self.running_at(now) is Some {
            SeekState { queued: Some(request), ..self }
        } else {
            SeekState::idle()
        }
    }

    pub fn new() -> (result: Self)
        ensures
            result == SeekState::idle(),
    {
        SeekState { in_flight: None, queued: None }
    }

    pub fn running(&self, now: u64) -> (result: Option<SeekRequest>)
        ensures
            result == self.running_at(now),
    {
        match self.in_flight {
            Some((request, at)) => if now < at || now - at < SEEK_SETTLE {
                Some(request)
            } else {
                None
            },
            None => None,
        }
    }

    pub fn pending(&self, now: u64) -> (result: Option<SeekRequest>)
        ensures
            result == self.pending_at(now),
    {
        match self.queued {
            Some(request) => Some(request),
            None => self.running(now),
        }
    }

    /// Records a request. Returns true when the caller must issue it, false when
    /// the running seek will pick it up.
    pub fn request(&mut self, request: SeekRequest, now: u64) -> (result: bool)
        ensures
            *final(self) == old(self).requested(request, now),
            result == (old(self).running_at(now) is None),
    {
        if self.running(now).is_some() {
            self.queued = Some(request);
            return false;
        }
        self.in_flight = None;
        self.queued = None;
        true
    }
}

/// However many positions arrive while a seek runs, only the newest is kept, and
/// it is what playback is headed for.
pub proof fn newest_position_is_kept(
    state: SeekState,
    first: SeekRequest,
    second: SeekRequest,
    now: u64,
)
    requires
        state.running_at(now) is Some,
    ensures
        state.requested(first, now).requested(second, now) == state.requested(second, now),
        state.requested(first, now).requested(second, now).pending_at(now) == Some(second),
        state.requested(first, now).in_flight == state.in_flight,
{
}

/// A lost seek neither blocks a new one nor is reported, unless a request waits.
pub proof fn lost_seeks_do_not_block(state: SeekState, request: SeekRequest, now: u64)
    requires
        state.running_at(now) is None,
    ensures
        state.queued is None ==> state.pending_at(now) is None,
        state.requested(request, now) == SeekState::idle(),
{
}

/// The kinds of streams.
#[derive(Debug, Clone, Copy, PartialEq, Eq, Structural)]
pub enum StreamKind {
    Audio,
    Video,
    Text,
}

/// One stream of a collection.
#[derive(Debug)]
pub struct StreamInfo {
    pub id: Option<String>,
    pub audio: bool,
    pub video: bool,
    pub text: bool,
    /// Whether the stream should be selected by default, or left out by default.
    pub select: bool,
    pub unselect: bool,
    pub title: Option<String>,
    pub language_name: Option<String>,
    pub language_code: Option<String>,
}

impl StreamInfo {
    pub open spec fn is(self, kind: StreamKind) -> bool {
        match kind {
            StreamKind::Audio => self.audio,
            StreamKind::Video => self.video,
            StreamKind::Text => self.text,
        }
    }

    pub open spec fn id_text(self) -> Option<Seq<char>> {
        text_view(self.id)
    }

    /// The name that a stream's tags give it: its title, or else its language.
    pub open spec fn tag(self) -> Option<Seq<char>> {
        match (self.title, self.language_name, self.language_code) {
            (Some(title), _, _) => Some(title@),
            (None, Some(name), _) => Some(name@),
            (None, None, Some(code)) => Some(code@),
            (None, None, None) => None,
        }
    }

    fn has_kind(&self, kind: StreamKind) -> (result: bool)
        ensures
            result == self.is(kind),
    {
        match kind {
            StreamKind::Audio => self.audio,
            StreamKind::Video => self.video,
            StreamKind::Text => self.text,
        }
    }

    fn tag_label(&self) -> (result: Option<String>)
        ensures
            text_view(result) == self.tag(),
    {
        match &self.title {
            Some(title) => Some(title.clone()),
            None => match &self.language_name {
                Some(name) => Some(name.clone()),
                None => match &self.language_code {
                    Some(code) => Some(code.clone()),
                    None => None,
                },
            },
        }
    }
}

pub open spec fn text_view(text: Option<String>) -> Option<Seq<char>> {
    match text {
        Some(content) => Some(content@),
        None => None,
    }
}

pub open spec fn path_text(path: Option<Vec<u8>>) -> Option<Seq<u8>> {
    match path {
        Some(bytes) => Some(bytes@),
        None => None,
    }
}

/// How many streams of a kind a collection has.
pub open spec fn count_of(streams: Seq<StreamInfo>, kind: StreamKind) -> nat
    decreases streams.len(),
{
    if streams.len() == 0 {
        0
    } else {
        count_of(streams.drop_last(), kind) + if streams.last().is(kind) {
            1nat
        } else {
            0
        }
    }
}

/// The audio tracks of a collection. Tracks without a tag are numbered among all
/// audio streams; streams that cannot be named are left out.
pub open spec fn audio_list(streams: Seq<StreamInfo>) -> Seq<Track>
    decreases streams.len(),
{
    if streams.len() == 0 {
        Seq::empty()
    } else {
        let before = audio_list(streams.drop_last());
        let stream = streams.last();
        match (stream.is(StreamKind::Audio), stream.id_text()) {
            (true, Some(id)) => before.push(
                Track {
                    id,
                    label: match stream.tag() {
                        Some(label) => label,
                        None => "Audio "@ + decimal_digits(
                            count_of(streams.drop_last(), StreamKind::Audio) + 1,
                        ),
                    },
                },
            ),
            _ => before,
        }
    }
}

/// The label of an external subtitle file.
pub open spec fn external_label(external: Option<Seq<u8>>) -> Option<Seq<char>> {
    match external {
        Some(path) => match file_name(path) {
            Some(name) => Some("External — "@ + lossy_text(name)),
            None => None,
        },
        None => None,
    }
}

/// The subtitle tracks of a collection. `external` is the label of the external
/// file where the collection's only text stream can be told to be it.
pub open spec fn subtitle_list(streams: Seq<StreamInfo>, external: Option<Seq<char>>) -> Seq<Track>
    decreases streams.len(),
{
    if streams.len() == 0 {
        Seq::empty()
    } else {
        let before = subtitle_list(streams.drop_last(), external);
        let stream = streams.last();
        match (stream.is(StreamKind::Text), stream.id_text()) {
            (true, Some(id)) => before.push(
                Track {
                    id,
                    label: match (stream.tag(), external) {
                        (Some(label), _) => label,
                        (None, Some(label)) => label,
                        (None, None) => "Subtitle "@ + decimal_digits(
                            count_of(streams.drop_last(), StreamKind::Text) + 1,
                        ),
                    },
                },
            ),
            _ => before,
        }
    }
}

/// The label that the subtitle tracks of a collection may use. With embedded and
/// external streams together nothing tells them apart, so none is used.
pub open spec fn usable_external(streams: Seq<StreamInfo>, external: Option<Seq<u8>>) -> Option<
    Seq<char>,
> {
    if count_of(streams, StreamKind::Text) == 1 {
        external_label(external)
    } else {
        None
    }
}

pub open spec fn lists_track(tracks: Seq<Track>, id: Seq<char>) -> bool {
    exists|i: int| 0 <= i < tracks.len() && (#[trigger] tracks[i]).id == id
}

/// The position of the first track of an id, or the number of tracks.
pub open spec fn track_at(tracks: Seq<Track>, id: Seq<char>) -> int
    decreases tracks.len(),
{
    if tracks.len() == 0 || tracks[0].id == id {
        0
    } else {
        1 + track_at(tracks.skip(1), id)
    }
}

proof fn track_at_bounds(tracks: Seq<Track>, id: Seq<char>)
    ensures
        0 <= track_at(tracks, id) <= tracks.len(),
        forall|i: int| 0 <= i < track_at(tracks, id) ==> (#[trigger] tracks[i]).id != id,
        track_at(tracks, id) < tracks.len() ==> tracks[track_at(tracks, id)].id == id,
        track_at(tracks, id) < tracks.len() <==> lists_track(tracks, id),
    decreases tracks.len(),
{
    if tracks.len() > 0 && tracks[0].id != id {
        let rest = tracks.skip(1);
        track_at_bounds(rest, id);
        assert forall|i: int| 0 <= i < track_at(tracks, id) implies (#[trigger] tracks[i]).id
            != id by {
            if i > 0 {
                assert(rest[i - 1] == tracks[i]);
            }
        }
        if track_at(tracks, id) < tracks.len() {
            assert(rest[track_at(rest, id)] == tracks[track_at(tracks, id)]);
        }
        if lists_track(tracks, id) {
            let i = choose|i: int| 0 <= i < tracks.len() && (#[trigger] tracks[i]).id == id;
            assert(rest[i - 1] == tracks[i]);
        }
    } else if tracks.len() > 0 {
        assert(tracks[0].id == id);
    }
}

/// The position of the first stream of an id, or the number of streams.
pub open spec fn stream_at(streams: Seq<StreamInfo>, id: Seq<char>) -> int
    decreases streams.len(),
{
    if streams.len() == 0 || streams[0].id_text() == Some(id) {
        0
    } else {
        1 + stream_at(streams.skip(1), id)
    }
}

/// Whether an id is that of a stream of a kind.
pub open spec fn id_has_kind(streams: Seq<StreamInfo>, id: Seq<char>, kind: StreamKind) -> bool {
    stream_at(streams, id) < streams.len() && streams[stream_at(streams, id)].is(kind)
}

/// The first selected id, in dictionary order, of a stream of a kind.
pub open spec fn selected_of(
    streams: Seq<StreamInfo>,
    selected: Seq<Seq<char>>,
    kind: StreamKind,
) -> Option<Seq<char>>
    decreases selected.len(),
{
    if selected.len() == 0 {
        None
    } else if id_has_kind(streams, selected[0], kind) {
        Some(selected[0])
    } else {
        selected_of(streams, selected.skip(1), kind)
    }
}

/// The position of the first stream of a kind that asks to be selected, or the
/// number of streams.
pub open spec fn asked_at(streams: Seq<StreamInfo>, kind: StreamKind) -> int
    decreases streams.len(),
{
    if streams.len() == 0 || (streams[0].is(kind) && streams[0].select) {
        0
    } else {
        1 + asked_at(streams.skip(1), kind)
    }
}

/// The position of the first stream of a kind that may be selected, or the number
/// of streams.
pub open spec fn allowed_at(streams: Seq<StreamInfo>, kind: StreamKind) -> int
    decreases streams.len(),
{
    if streams.len() == 0 || (streams[0].is(kind) && !streams[0].unselect) {
        0
    } else {
        1 + allowed_at(streams.skip(1), kind)
    }
}

/// The stream of a kind that is selected by default.
pub open spec fn default_of(streams: Seq<StreamInfo>, kind: StreamKind) -> Option<Seq<char>> {
    if asked_at(streams, kind) < streams.len() {
        streams[asked_at(streams, kind)].id_text()
    } else if allowed_at(streams, kind) < streams.len() {
        streams[allowed_at(streams, kind)].id_text()
    } else {
        None
    }
}

/// The session as a value.
#[verifier::ext_equal]
pub struct Session {
    pub generation: u64,
    pub video: Option<Seq<u8>>,
    pub playing: bool,
    pub rate: u32,
    pub duration: Option<u64>,
    pub seek: SeekState,
    pub resume: Option<ResumeState>,
    pub error_pending: bool,
    pub collection: Option<Seq<StreamInfo>>,
    pub selected: Seq<Seq<char>>,
    pub audio_tracks: Seq<Track>,
    pub audio_choice: Choice,
    pub subtitle_tracks: Seq<Track>,
    pub subtitle_choice: Choice,
    pub last_visible: Choice,
    pub external: Option<Seq<u8>>,
}

pub open spec fn default_choice(on: bool) -> Choice {
    if on {
        Choice::Automatic
    } else {
        Choice::Off
    }
}

impl Session {
    pub open spec fn fresh(generation: u64, subtitles_on: bool) -> Session {
        Session {
            generation,
            video: None,
            playing: false,
            rate: NORMAL_RATE,
            duration: None,
            seek: SeekState::idle(),
            resume: None,
            error_pending: false,
            collection: None,
            selected: Seq::empty(),
            audio_tracks: Seq::empty(),
            audio_choice: Choice::Automatic,
            subtitle_tracks: Seq::empty(),
            subtitle_choice: default_choice(subtitles_on),
            last_visible: Choice::Automatic,
            external: None,
        }
    }

    pub open spec fn started(
        self,
        path: Seq<u8>,
        external: Option<Seq<u8>>,
        subtitles_on: bool,
    ) -> Session {
        Session {
            video: Some(path),
            external,
            ..Session::fresh(following(self.generation), subtitles_on)
        }
    }

    pub open spec fn timing_forgotten(self) -> Session {
        Session { seek: SeekState::idle(), rate: NORMAL_RATE, duration: None, ..self }
    }

    pub open spec fn rebuilt(
        self,
        position: i64,
        rate: u32,
        play: bool,
        external: Option<Seq<u8>>,
    ) -> Session {
        Session {
            collection: None,
            selected: Seq::empty(),
            audio_tracks: Seq::empty(),
            subtitle_tracks: Seq::empty(),
            subtitle_choice: Choice::Automatic,
            last_visible: Choice::Automatic,
            external,
            resume: Some(
                ResumeState { position, rate, play_after_seek: play, stage: ResumeStage::Preroll },
            ),
            ..self.timing_forgotten()
        }
    }

    /// What follows when the pipeline has settled.
    pub open spec fn settled_action(self) -> ResumeAction {
        match self.resume {
            Some(state) => match state.stage {
                ResumeStage::Preroll => ResumeAction::Seek {
                    position: state.position,
                    rate: state.rate,
                    resume_playing: state.play_after_seek,
                },
                ResumeStage::Seek => ResumeAction::Finish { resume_playing: state.play_after_seek },
            },
            None => ResumeAction::Nothing,
        }
    }

    pub open spec fn settled(self) -> Session {
        match self.resume {
            Some(state) => match state.stage {
                ResumeStage::Preroll => Session {
                    resume: Some(ResumeState { stage: ResumeStage::Seek, ..state }),
                    ..self
                },
                ResumeStage::Seek => Session { resume: None, ..self },
            },
            None => self,
        }
    }

    pub open spec fn requested_rate(self, now: u64) -> u32 {
        match self.seek.pending_at(now) {
            Some(request) => request.rate,
            None => self.rate,
        }
    }

    /// The choice that stays when tracks change: one whose track is gone becomes automatic.
    pub open spec fn kept_choice(choice: Choice, tracks: Seq<Track>) -> Choice {
        match choice {
            Choice::Track(id) => if lists_track(tracks, id) {
                choice
            } else {
                Choice::Automatic
            },
            _ => choice,
        }
    }

    pub open spec fn with_collection(self, streams: Seq<StreamInfo>) -> Session {
        let audio = audio_list(streams);
        let subtitles = subtitle_list(streams, usable_external(streams, self.external));
        Session {
            collection: Some(streams),
            audio_tracks: audio,
            subtitle_tracks: subtitles,
            audio_choice: Session::kept_choice(self.audio_choice, audio),
            subtitle_choice: Session::kept_choice(self.subtitle_choice, subtitles),
            last_visible: Session::kept_choice(self.last_visible, subtitles),
            ..self
        }
    }

    pub open spec fn selected_id(self, kind: StreamKind) -> Option<Seq<char>> {
        match self.collection {
            Some(streams) => selected_of(streams, self.selected, kind),
            None => None,
        }
    }

    pub open spec fn label_of(self, tracks: Seq<Track>, kind: StreamKind) -> Option<Seq<char>> {
        match self.selected_id(kind) {
            Some(id) => if track_at(tracks, id) < tracks.len() {
                Some(tracks[track_at(tracks, id)].label)
            } else {
                None
            },
            None => None,
        }
    }

    pub open spec fn audio_available(self, choice: Choice) -> bool {
        match choice {
            Choice::Track(id) => lists_track(self.audio_tracks, id),
            _ => true,
        }
    }

    pub open spec fn subtitle_available(self, choice: Choice) -> bool {
        match choice {
            Choice::Track(id) => lists_track(self.subtitle_tracks, id),
            _ => true,
        }
    }

    /// What is selected of a kind, or else what would be by default.
    pub open spec fn active_or_default(self, kind: StreamKind) -> Option<Seq<char>> {
        match self.selected_id(kind) {
            Some(id) => Some(id),
            None => default_of(self.collection->0, kind),
        }
    }

    /// The stream for a choice. An automatic choice keeps what is selected; asking
    /// for it anew goes back to the default.
    pub open spec fn stream_for(
        self,
        choice: Choice,
        asked: bool,
        tracks: Seq<Track>,
        kind: StreamKind,
    ) -> Option<Seq<char>> {
        match choice {
            Choice::Off => None,
            Choice::Track(id) => if lists_track(tracks, id) {
                Some(id)
            } else {
                default_of(self.collection->0, kind)
            },
            Choice::Automatic => if asked {
                default_of(self.collection->0, kind)
            } else {
                self.active_or_default(kind)
            },
        }
    }

    /// The streams to select: video, audio and subtitle, as far as there are any.
    pub open spec fn selection(
        self,
        audio_request: Option<Choice>,
        subtitle_request: Option<Choice>,
    ) -> Seq<Seq<char>> {
        if self.collection is None {
            Seq::empty()
        } else {
            let audio = match audio_request {
                Some(choice) => choice,
                None => self.audio_choice,
            };
            let subtitle = match subtitle_request {
                Some(choice) => choice,
                None => self.subtitle_choice,
            };
            as_list(self.active_or_default(StreamKind::Video)) + as_list(
                self.stream_for(audio, audio_request is Some, self.audio_tracks, StreamKind::Audio),
            ) + as_list(
                self.stream_for(
                    subtitle,
                    subtitle_request is Some,
                    self.subtitle_tracks,
                    StreamKind::Text,
                ),
            )
        }
    }

    /// The choice that turns subtitles off, or back on as they were.
    pub open spec fn toggled(self) -> Choice {
        if self.subtitle_choice != Choice::Off {
            Choice::Off
        } else {
            match self.last_visible {
                Choice::Track(id) => if lists_track(self.subtitle_tracks, id) {
                    self.last_visible
                } else {
                    Choice::Automatic
                },
                _ => Choice::Automatic,
            }
        }
    }

    /// The track that a choice stands for.
    pub open spec fn current_subtitle(self) -> Option<Seq<char>> {
        match self.subtitle_choice {
            Choice::Track(id) => Some(id),
            Choice::Automatic => self.selected_id(StreamKind::Text),
            Choice::Off => None,
        }
    }

    pub open spec fn track_choice(self, index: int) -> Choice {
        if 0 <= index < self.subtitle_tracks.len() {
            Choice::Track(self.subtitle_tracks[index].id)
        } else {
            Choice::Off
        }
    }

    /// The next choice: from off to the first track, then one track after another,
    /// then off.
    pub open spec fn cycled(self) -> Choice {
        if self.subtitle_choice == Choice::Off {
            self.track_choice(0)
        } else {
            match self.current_subtitle() {
                Some(id) => if track_at(self.subtitle_tracks, id) < self.subtitle_tracks.len() {
                    self.track_choice(track_at(self.subtitle_tracks, id) + 1)
                } else {
                    Choice::Off
                },
                None => Choice::Off,
            }
        }
    }

    pub open spec fn with_subtitle_choice(self, choice: Choice) -> Session {
        Session {
            subtitle_choice: choice,
            last_visible: if choice != Choice::Off {
                choice
            } else {
                self.last_visible
            },
            ..self
        }
    }
}

pub open spec fn as_list(id: Option<Seq<char>>) -> Seq<Seq<char>> {
    match id {
        Some(text) => seq![text],
        None => Seq::empty(),
    }
}

/// The views of a list of strings.
pub open spec fn texts(list: Seq<String>) -> Seq<Seq<char>> {
    Seq::new(list.len(), |i: int| list[i]@)
}

/// Turning subtitles off and on again restores the choice that was visible.
pub proof fn toggling_twice_restores_the_choice(session: Session, choice: Choice)
    requires
        choice matches Choice::Track(id) && lists_track(session.subtitle_tracks, id),
    ensures
        session.with_subtitle_choice(choice).toggled() == Choice::Off,
        session.with_subtitle_choice(choice).with_subtitle_choice(Choice::Off).toggled() == choice,
{
}

/// Changing one choice leaves the streams of the other kinds that are active or
/// chosen as they are.
pub proof fn one_request_keeps_the_other_streams(
    session: Session,
    audio: Choice,
    subtitle: Choice,
)
    requires
        session.collection is Some,
    ensures
        session.selection(Some(audio), None) == as_list(
            session.active_or_default(StreamKind::Video),
        ) + as_list(
            session.stream_for(audio, true, session.audio_tracks, StreamKind::Audio),
        ) + as_list(
            session.stream_for(
                session.subtitle_choice,
                false,
                session.subtitle_tracks,
                StreamKind::Text,
            ),
        ),
        session.selection(None, Some(subtitle)) == as_list(
            session.active_or_default(StreamKind::Video),
        ) + as_list(
            session.stream_for(
                session.audio_choice,
                false,
                session.audio_tracks,
                StreamKind::Audio,
            ),
        ) + as_list(
            session.stream_for(subtitle, true, session.subtitle_tracks, StreamKind::Text),
        ),
{
}

/// After a collection change every chosen track is one of the collection.
pub proof fn collection_changes_keep_only_valid_choices(
    session: Session,
    streams: Seq<StreamInfo>,
)
    ensures
        ({
            let after = session.with_collection(streams);
            &&& after.audio_available(after.audio_choice)
            &&& after.subtitle_available(after.subtitle_choice)
            &&& after.subtitle_available(after.last_visible)
            &&& session.audio_choice matches Choice::Track(id) ==> (lists_track(
                after.audio_tracks,
                id,
            ) ==> after.audio_choice == session.audio_choice)
        }),
{
}

/// Cycling through subtitles from off visits the first track, and from the last
/// track goes back to off.
pub proof fn cycling_starts_and_ends_off(session: Session)
    requires
        session.subtitle_tracks.len() > 0,
        forall|i: int, j: int|
            0 <= i < j < session.subtitle_tracks.len() ==> (#[trigger] session.subtitle_tracks[i]).id
                != (#[trigger] session.subtitle_tracks[j]).id,
    ensures
        session.with_subtitle_choice(Choice::Off).cycled() == Choice::Track(
            session.subtitle_tracks[0].id,
        ),
        session.with_subtitle_choice(
            Choice::Track(session.subtitle_tracks.last().id),
        ).cycled() == Choice::Off,
        forall|i: int|
            0 <= i < session.subtitle_tracks.len() - 1 ==> session.with_subtitle_choice(
                Choice::Track((#[trigger] session.subtitle_tracks[i]).id),
            ).cycled() == Choice::Track(session.subtitle_tracks[i + 1].id),
{
    let tracks = session.subtitle_tracks;
    assert forall|i: int| 0 <= i < tracks.len() implies track_at(tracks, (#[trigger] tracks[i]).id)
        == i by {
        track_at_bounds(tracks, tracks[i].id);
        let found = track_at(tracks, tracks[i].id);
        if found < i {
            assert(tracks[found].id != tracks[i].id);
        }
        assert(lists_track(tracks, tracks[i].id));
    }
    assert(tracks.last() == tracks[tracks.len() - 1]);
}

/// A rebuild goes on where it left off: it settles into a seek to the position,
/// and then finishes.
pub proof fn rebuild_resumes(
    session: Session,
    position: i64,
    rate: u32,
    play: bool,
    external: Option<Seq<u8>>,
)
    ensures
        ({
            let rebuilt = session.rebuilt(position, rate, play, external);
            &&& rebuilt.settled_action() == ResumeAction::Seek {
                position,
                rate,
                resume_playing: play,
            }
            &&& rebuilt.settled().settled_action() == ResumeAction::Finish { resume_playing: play }
            &&& rebuilt.settled().settled().settled_action() == ResumeAction::Nothing
            &&& rebuilt.generation == session.generation
        }),
{
}

/// All facts of the active playback session. Commands and pipeline observations
/// both enter through this model, so sequencing does not depend on keeping
/// several states in step.
pub struct FocusedPlayback {
    generation: u64,
    current_video: Option<Vec<u8>>,
    playing: bool,
    /// Last rate accepted by the pipeline. A queued seek may advertise a newer
    /// requested rate without changing this until it is accepted.
    playback_rate: u32,
    duration: Option<u64>,
    seek: SeekState,
    resume: Option<ResumeState>,
    error_pending: bool,
    collection: Option<Vec<StreamInfo>>,
    selected: KeyMap<bool>,
    audio_tracks: Vec<AudioTrack>,
    audio_choice: AudioChoice,
    subtitle_tracks: Vec<SubtitleTrack>,
    subtitle_choice: SubtitleChoice,
    /// The choice that toggling restores after `Off`.
    last_visible_subtitle_choice: SubtitleChoice,
    external: Option<Vec<u8>>,
}

/// Which session an error belongs to.
#[derive(Debug)]
pub struct ErrorContext {
    generation: u64,
    external: Option<Vec<u8>>,
}

impl ErrorContext {
    pub closed spec fn generation(self) -> u64 {
        self.generation
    }

    pub closed spec fn external(self) -> Option<Seq<u8>> {
        path_text(self.external)
    }

    /// Whether the session is still the one that the error came from.
    pub open spec fn is_of(self, session: Session) -> bool {
        self.generation() == session.generation && match (self.external(), session.external) {
            (Some(left), Some(right)) => place(left) == place(right),
            (None, None) => true,
            _ => false,
        }
    }
}

/// What a new collection of streams leads to.
pub struct StreamUpdate {
    pub audio_count: usize,
    pub subtitle_count: usize,
    /// The streams to select, where a choice asks for it.
    pub selection: Option<Vec<String>>,
    pub audio: AudioSnapshot,
    pub subtitles: SubtitleSnapshot,
}

impl View for FocusedPlayback {
    type V = Session;

    closed spec fn view(&self) -> Session {
        Session {
            generation: self.generation,
            video: path_text(self.current_video),
            playing: self.playing,
            rate: self.playback_rate,
            duration: self.duration,
            seek: self.seek,
            resume: self.resume,
            error_pending: self.error_pending,
            collection: match self.collection {
                Some(streams) => Some(streams@),
                None => None,
            },
            selected: self.selected.keys(),
            audio_tracks: audio_views(self.audio_tracks@),
            audio_choice: self.audio_choice@,
            subtitle_tracks: subtitle_views(self.subtitle_tracks@),
            subtitle_choice: self.subtitle_choice@,
            last_visible: self.last_visible_subtitle_choice@,
            external: path_text(self.external),
        }
    }
}

/// What an audio snapshot shows of a session.
pub open spec fn shows_audio(snapshot: AudioSnapshot, session: Session) -> bool {
    &&& audio_views(snapshot.tracks@) == session.audio_tracks
    &&& snapshot.choice@ == session.audio_choice
    &&& text_view(snapshot.active_label) == session.label_of(
        session.audio_tracks,
        StreamKind::Audio,
    )
}

/// What a subtitle snapshot shows of a session.
pub open spec fn shows_subtitles(snapshot: SubtitleSnapshot, session: Session) -> bool {
    &&& subtitle_views(snapshot.tracks@) == session.subtitle_tracks
    &&& snapshot.choice@ == session.subtitle_choice
    &&& text_view(snapshot.active_label) == session.label_of(
        session.subtitle_tracks,
        StreamKind::Text,
    )
}

fn copy_path(path: &Option<Vec<u8>>) -> (result: Option<Vec<u8>>)
    ensures
        path_text(result) == path_text(*path),
{
    match path {
        Some(bytes) => Some(copy_bytes(bytes.as_slice())),
        None => None,
    }
}

fn copy_audio_tracks(tracks: &Vec<AudioTrack>) -> (result: Vec<AudioTrack>)
    ensures
        audio_views(result@) == audio_views(tracks@),
{
    let mut result: Vec<AudioTrack> = Vec::new();
    for i in 0..tracks.len()
        invariant
            audio_views(result@) == audio_views(tracks@).take(i as int),
    {
        let track = AudioTrack { id: tracks[i].id.clone(), label: tracks[i].label.clone() };
        let ghost before = audio_views(result@);
        result.push(track);
        assert(audio_views(result@) =~= before.push(track@));
        assert(audio_views(tracks@).take(i + 1) =~= before.push(audio_views(tracks@)[i as int]));
    }
    assert(audio_views(tracks@).take(tracks@.len() as int) =~= audio_views(tracks@));
    result
}

fn copy_subtitle_tracks(tracks: &Vec<SubtitleTrack>) -> (result: Vec<SubtitleTrack>)
    ensures
        subtitle_views(result@) == subtitle_views(tracks@),
{
    let mut result: Vec<SubtitleTrack> = Vec::new();
    for i in 0..tracks.len()
        invariant
            subtitle_views(result@) == subtitle_views(tracks@).take(i as int),
    {
        let track = SubtitleTrack { id: tracks[i].id.clone(), label: tracks[i].label.clone() };
        let ghost before = subtitle_views(result@);
        result.push(track);
        assert(subtitle_views(result@) =~= before.push(track@));
        assert(subtitle_views(tracks@).take(i + 1) =~= before.push(
            subtitle_views(tracks@)[i as int],
        ));
    }
    assert(subtitle_views(tracks@).take(tracks@.len() as int) =~= subtitle_views(tracks@));
    result
}

fn audio_tracks_of(streams: &Vec<StreamInfo>) -> (result: Vec<AudioTrack>)
    ensures
        audio_views(result@) == audio_list(streams@),
{
    let mut result: Vec<AudioTrack> = Vec::new();
    let mut count: u64 = 0;
    assert(audio_views(result@) =~= audio_list(streams@.take(0)));
    for i in 0..streams.len()
        invariant
            audio_views(result@) == audio_list(streams@.take(i as int)),
            count as nat == count_of(streams@.take(i as int), StreamKind::Audio),
            count <= i,
    {
        let ghost before = audio_views(result@);
        assert(streams@.take(i + 1).drop_last() =~= streams@.take(i as int));
        let stream = &streams[i];
        if stream.audio {
            count = count + 1;
            match &stream.id {
                Some(id) => {
                    let label = match stream.tag_label() {
                        Some(label) => label,
                        None => {
                            let mut label = "Audio ".to_owned();
                            push_decimal(&mut label, count);
                            label
                        },
                    };
                    let track = AudioTrack { id: id.clone(), label };
                    result.push(track);
                    assert(audio_views(result@) =~= before.push(track@));
                },
                None => {},
            }
        }
    }
    assert(streams@.take(streams@.len() as int) =~= streams@);
    result
}

fn count_text(streams: &Vec<StreamInfo>) -> (result: usize)
    ensures
        result as nat == count_of(streams@, StreamKind::Text),
{
    let mut count: usize = 0;
    for i in 0..streams.len()
        invariant
            count as nat == count_of(streams@.take(i as int), StreamKind::Text),
            count <= i,
    {
        assert(streams@.take(i + 1).drop_last() =~= streams@.take(i as int));
        if streams[i].text {
            count = count + 1;
        }
    }
    assert(streams@.take(streams@.len() as int) =~= streams@);
    count
}

fn subtitle_tracks_of(streams: &Vec<StreamInfo>, external: &Option<Vec<u8>>) -> (result: Vec<
    SubtitleTrack,
>)
    ensures
        subtitle_views(result@) == subtitle_list(
            streams@,
            usable_external(streams@, path_text(*external)),
        ),
{
    let external_text = if count_text(streams) == 1 {
        match external {
            Some(path) => match file_name_of(path.as_slice()) {
                Some(name) => {
                    let mut label = "External — ".to_owned();
                    label.append(lossy(name.as_slice()).as_str());
                    Some(label)
                },
                None => None,
            },
            None => None,
        }
    } else {
        None
    };
    let ghost label = text_view(external_text);
    assert(label == usable_external(streams@, path_text(*external)));
    let mut result: Vec<SubtitleTrack> = Vec::new();
    let mut count: u64 = 0;
    assert(subtitle_views(result@) =~= subtitle_list(streams@.take(0), label));
    for i in 0..streams.len()
        invariant
            label == text_view(external_text),
            subtitle_views(result@) == subtitle_list(streams@.take(i as int), label),
            count as nat == count_of(streams@.take(i as int), StreamKind::Text),
            count <= i,
    {
        let ghost before = subtitle_views(result@);
        assert(streams@.take(i + 1).drop_last() =~= streams@.take(i as int));
        let stream = &streams[i];
        if stream.text {
            count = count + 1;
            match &stream.id {
                Some(id) => {
                    let label = match stream.tag_label() {
                        Some(label) => label,
                        None => match &external_text {
                            Some(label) => label.clone(),
                            None => {
                                let mut label = "Subtitle ".to_owned();
                                push_decimal(&mut label, count);
                                label
                            },
                        },
                    };
                    let track = SubtitleTrack { id: id.clone(), label };
                    result.push(track);
                    assert(subtitle_views(result@) =~= before.push(track@));
                },
                None => {},
            }
        }
    }
    assert(streams@.take(streams@.len() as int) =~= streams@);
    result
}

fn find_audio(tracks: &Vec<AudioTrack>, id: &str) -> (result: Option<usize>)
    ensures
        match result {
            Some(at) => at < tracks@.len() && at == track_at(audio_views(tracks@), id@)
                && lists_track(audio_views(tracks@), id@),
            None => track_at(audio_views(tracks@), id@) == tracks@.len() && !lists_track(
                audio_views(tracks@),
                id@,
            ),
        },
{
    proof {
        track_at_bounds(audio_views(tracks@), id@);
    }
    for i in 0..tracks.len()
        invariant
            i <= track_at(audio_views(tracks@), id@) <= tracks@.len(),
    {
        proof {
            track_at_bounds(audio_views(tracks@), id@);
        }
        assert(audio_views(tracks@)[i as int] == tracks@[i as int]@);
        if same_text(tracks[i].id.as_str(), id) {
            return Some(i);
        }
    }
    proof {
        track_at_bounds(audio_views(tracks@), id@);
    }
    None
}

fn find_subtitle(tracks: &Vec<SubtitleTrack>, id: &str) -> (result: Option<usize>)
    ensures
        match result {
            Some(at) => at < tracks@.len() && at == track_at(subtitle_views(tracks@), id@)
                && lists_track(subtitle_views(tracks@), id@),
            None => track_at(subtitle_views(tracks@), id@) == tracks@.len() && !lists_track(
                subtitle_views(tracks@),
                id@,
            ),
        },
{
    proof {
        track_at_bounds(subtitle_views(tracks@), id@);
    }
    for i in 0..tracks.len()
        invariant
            i <= track_at(subtitle_views(tracks@), id@) <= tracks@.len(),
    {
        proof {
            track_at_bounds(subtitle_views(tracks@), id@);
        }
        assert(subtitle_views(tracks@)[i as int] == tracks@[i as int]@);
        if same_text(tracks[i].id.as_str(), id) {
            return Some(i);
        }
    }
    proof {
        track_at_bounds(subtitle_views(tracks@), id@);
    }
    None
}

fn stream_has_kind(streams: &Vec<StreamInfo>, id: &str, kind: StreamKind) -> (result: bool)
    ensures
        result == id_has_kind(streams@, id@, kind),
{
    assert(streams@.skip(0) =~= streams@);
    for i in 0..streams.len()
        invariant
            stream_at(streams@, id@) == i + stream_at(streams@.skip(i as int), id@),
    {
        assert(streams@.skip(i as int)[0] == streams@[i as int]);
        assert(streams@.skip(i as int).skip(1) =~= streams@.skip(i + 1));
        let found = match &streams[i].id {
            Some(text) => same_text(text.as_str(), id),
            None => false,
        };
        if found {
            return streams[i].has_kind(kind);
        }
    }
    false
}

fn default_stream_id(streams: &Vec<StreamInfo>, kind: StreamKind) -> (result: Option<String>)
    ensures
        text_view(result) == default_of(streams@, kind),
{
    assert(streams@.skip(0) =~= streams@);
    for i in 0..streams.len()
        invariant
            asked_at(streams@, kind) == i + asked_at(streams@.skip(i as int), kind),
    {
        assert(streams@.skip(i as int)[0] == streams@[i as int]);
        assert(streams@.skip(i as int).skip(1) =~= streams@.skip(i + 1));
        if streams[i].has_kind(kind) && streams[i].select {
            return streams[i].id.clone();
        }
    }
    for i in 0..streams.len()
        invariant
            asked_at(streams@, kind) == streams@.len(),
            allowed_at(streams@, kind) == i + allowed_at(streams@.skip(i as int), kind),
    {
        assert(streams@.skip(i as int)[0] == streams@[i as int]);
        assert(streams@.skip(i as int).skip(1) =~= streams@.skip(i + 1));
        if streams[i].has_kind(kind) && !streams[i].unselect {
            return streams[i].id.clone();
        }
    }
    None
}

impl FocusedPlayback {
    /// The selected streams are kept in order.
    pub closed spec fn wf(self) -> bool {
        self.selected.wf()
    }

    pub fn new() -> (result: Self)
        ensures
            result@ == Session::fresh(0, true),
            result.wf(),
    {
        FocusedPlayback::fresh(0, true)
    }

    fn fresh(generation: u64, subtitles_default_on: bool) -> (result: Self)
        ensures
            result@ == Session::fresh(generation, subtitles_default_on),
            result.wf(),
    {
        let result = FocusedPlayback {
            generation,
            current_video: None,
            playing: false,
            playback_rate: NORMAL_RATE,
            duration: None,
            seek: SeekState::new(),
            resume: None,
            error_pending: false,
            collection: None,
            selected: KeyMap::new(),
            audio_tracks: Vec::new(),
            audio_choice: AudioChoice::Automatic,
            subtitle_tracks: Vec::new(),
            subtitle_choice: if subtitles_default_on {
                SubtitleChoice::Automatic
            } else {
                SubtitleChoice::Off
            },
            last_visible_subtitle_choice: SubtitleChoice::Automatic,
            external: None,
        };
        assert(result@.audio_tracks =~= Seq::<Track>::empty());
        assert(result@.subtitle_tracks =~= Seq::<Track>::empty());
        assert(result@.selected =~= Seq::<Seq<char>>::empty());
        result
    }

    /// Forgets everything but the count of sessions.
    pub fn reset(&mut self, subtitles_default_on: bool)
        ensures
            final(self)@ == Session::fresh(following(old(self)@.generation), subtitles_default_on),
            final(self).wf(),
    {
        let generation: u64 = if self.generation == u64::MAX {
            0
        } else {
            self.generation + 1
        };
        *self = FocusedPlayback::fresh(generation, subtitles_default_on);
    }

    /// Begins a session for a video, with an external subtitle file or without.
    pub fn start_video(&mut self, path: &[u8], external: Option<Vec<u8>>, subtitles_default_on: bool)
        ensures
            final(self)@ == old(self)@.started(path@, path_text(external), subtitles_default_on),
            final(self).wf(),
    {
        self.reset(subtitles_default_on);
        self.current_video = Some(copy_bytes(path));
        self.external = external;
    }

    /// Notes that the pipeline took up playing.
    pub fn playback_started(&mut self)
        requires
            old(self).wf(),
        ensures
            final(self)@ == (Session { playing: true, ..old(self)@ }),
            final(self).wf(),
    {
        self.playing = true;
    }

    pub fn forget_timing(&mut self)
        requires
            old(self).wf(),
        ensures
            final(self)@ == old(self)@.timing_forgotten(),
            final(self).wf(),
    {
        self.seek = SeekState::new();
        self.playback_rate = NORMAL_RATE;
        self.duration = None;
    }

    /// The rate that was asked for last, whether or not it was accepted yet.
    pub fn requested_rate(&self, now: u64) -> (result: u32)
        ensures
            result == self@.requested_rate(now),
    {
        match self.seek.pending(now) {
            Some(request) => request.rate,
            None => self.playback_rate,
        }
    }

    /// Records a seek. Returns whether the caller must issue it now.
    pub fn request_seek(&mut self, request: SeekRequest, now: u64) -> (result: bool)
        requires
            old(self).wf(),
        ensures
            final(self)@ == (Session {
                seek: old(self)@.seek.requested(request, now),
                ..old(self)@
            }),
            final(self).wf(),
            result == (old(self)@.seek.running_at(now) is None),
    {
        let mut seek = self.seek;
        let result = seek.request(request, now);
        self.seek = seek;
        result
    }

    /// Notes that a seek is on its way.
    pub fn begin_seek(&mut self, request: SeekRequest, now: u64)
        requires
            old(self).wf(),
        ensures
            final(self)@ == (Session {
                seek: SeekState { in_flight: Some((request, now)), queued: None },
                ..old(self)@
            }),
            final(self).wf(),
    {
        self.seek = SeekState { in_flight: Some((request, now)), queued: None };
    }

    /// Notes that the pipeline accepted a seek and its rate.
    pub fn accept_seek(&mut self, request: SeekRequest)
        requires
            old(self).wf(),
        ensures
            final(self)@ == (Session { rate: request.rate, ..old(self)@ }),
            final(self).wf(),
    {
        self.playback_rate = request.rate;
    }

    /// Notes that the pipeline refused a seek; the accepted rate stays.
    pub fn seek_refused(&mut self)
        requires
            old(self).wf(),
        ensures
            final(self)@ == (Session {
                seek: SeekState { in_flight: None, ..old(self)@.seek },
                ..old(self)@
            }),
            final(self).wf(),
    {
        self.seek = SeekState { in_flight: None, queued: self.seek.queued };
    }

    /// Prepares for the pipeline to be rebuilt with or without an external
    /// subtitle: streams are forgotten, and playback goes on at the position.
    pub fn prepare_subtitle_rebuild(
        &mut self,
        position: i64,
        rate: u32,
        play_after_seek: bool,
        external: Option<Vec<u8>>,
    )
        requires
            old(self).wf(),
        ensures
            final(self)@ == old(self)@.rebuilt(
                position,
                rate,
                play_after_seek,
                path_text(external),
            ),
            final(self).wf(),
    {
        self.forget_timing();
        self.collection = None;
        self.selected = KeyMap::new();
        self.audio_tracks = Vec::new();
        self.subtitle_tracks = Vec::new();
        self.subtitle_choice = SubtitleChoice::Automatic;
        self.last_visible_subtitle_choice = SubtitleChoice::Automatic;
        self.external = external;
        self.resume = Some(
            ResumeState { position, rate, play_after_seek, stage: ResumeStage::Preroll },
        );
        assert(self@.audio_tracks =~= Seq::<Track>::empty());
        assert(self@.subtitle_tracks =~= Seq::<Track>::empty());
        assert(self@.selected =~= Seq::<Seq<char>>::empty());
    }

    /// Notes that the pipeline has settled. Returns what a rebuild needs next.
    pub fn observe_async_done(&mut self) -> (result: ResumeAction)
        requires
            old(self).wf(),
        ensures
            final(self)@ == old(self)@.settled(),
            final(self).wf(),
            result == old(self)@.settled_action(),
    {
        match self.resume {
            Some(state) => match state.stage {
                ResumeStage::Preroll => {
                    self.resume = Some(
                        ResumeState {
                            position: state.position,
                            rate: state.rate,
                            play_after_seek: state.play_after_seek,
                            stage: ResumeStage::Seek,
                        },
                    );
                    ResumeAction::Seek {
                        position: state.position,
                        rate: state.rate,
                        resume_playing: state.play_after_seek,
                    }
                },
                ResumeStage::Seek => {
                    self.resume = None;
                    ResumeAction::Finish { resume_playing: state.play_after_seek }
                },
            },
            None => ResumeAction::Nothing,
        }
    }

    /// Notes that a seek has arrived. Returns the request that waited for it.
    pub fn finish_seek(&mut self) -> (result: Option<SeekRequest>)
        requires
            old(self).wf(),
        ensures
            final(self)@ == (Session { seek: SeekState::idle(), ..old(self)@ }),
            final(self).wf(),
            result == old(self)@.seek.queued,
    {
        let queued = self.seek.queued;
        self.seek = SeekState::new();
        queued
    }

    pub fn accepted_rate(&self) -> (result: u32)
        ensures
            result == self@.rate,
    {
        self.playback_rate
    }

    pub fn cancel_resume(&mut self)
        requires
            old(self).wf(),
        ensures
            final(self)@ == (Session { resume: None, ..old(self)@ }),
            final(self).wf(),
    {
        self.resume = None;
    }

    /// Whether a rebuild has still to resume.
    pub fn is_resuming(&self) -> (result: bool)
        ensures
            result == (self@.resume is Some),
    {
        self.resume.is_some()
    }

    pub fn set_playing(&mut self, playing: bool)
        requires
            old(self).wf(),
        ensures
            final(self)@ == (Session { playing, ..old(self)@ }),
            final(self).wf(),
    {
        self.playing = playing;
    }

    pub fn is_playing(&self) -> (result: bool)
        ensures
            result == self@.playing,
    {
        self.playing
    }

    pub fn invalidate_duration(&mut self)
        requires
            old(self).wf(),
        ensures
            final(self)@ == (Session { duration: None, ..old(self)@ }),
            final(self).wf(),
    {
        self.duration = None;
    }

    pub fn cached_duration(&self) -> (result: Option<u64>)
        ensures
            result == self@.duration,
    {
        self.duration
    }

    pub fn cache_duration(&mut self, duration: u64)
        requires
            old(self).wf(),
        ensures
            final(self)@ == (Session { duration: Some(duration), ..old(self)@ }),
            final(self).wf(),
    {
        self.duration = Some(duration);
    }

    /// Where playback is headed, while it is on its way there.
    pub fn pending_seek_position(&self, now: u64) -> (result: Option<i64>)
        ensures
            result == match self@.seek.pending_at(now) {
                Some(request) => Some(request.position),
                None => None,
            },
    {
        match self.seek.pending(now) {
            Some(request) => Some(request.position),
            None => None,
        }
    }

    pub fn current_video(&self) -> (result: Option<&[u8]>)
        ensures
            match result {
                Some(path) => self@.video == Some(path@),
                None => self@.video is None,
            },
    {
        match &self.current_video {
            Some(path) => Some(path.as_slice()),
            None => None,
        }
    }

    pub fn has_external_subtitle(&self) -> (result: bool)
        ensures
            result == (self@.external is Some),
    {
        self.external.is_some()
    }

    pub fn external_subtitle(&self) -> (result: Option<&[u8]>)
        ensures
            match result {
                Some(path) => self@.external == Some(path@),
                None => self@.external is None,
            },
    {
        match &self.external {
            Some(path) => Some(path.as_slice()),
            None => None,
        }
    }

    pub fn set_default_subtitles(&mut self, enabled: bool)
        requires
            old(self).wf(),
        ensures
            final(self)@ == (Session { subtitle_choice: default_choice(enabled), ..old(self)@ }),
            final(self).wf(),
    {
        self.subtitle_choice = if enabled {
            SubtitleChoice::Automatic
        } else {
            SubtitleChoice::Off
        };
    }

    /// Takes in a new collection of streams. Choices whose track is gone become
    /// automatic; a choice that is not automatic asks for a selection.
    pub fn observe_stream_collection(&mut self, streams: Vec<StreamInfo>) -> (result: StreamUpdate)
        requires
            old(self).wf(),
        ensures
            final(self).wf(),
            final(self)@ == old(self)@.with_collection(streams@),
            result.audio_count == final(self)@.audio_tracks.len(),
            result.subtitle_count == final(self)@.subtitle_tracks.len(),
            match result.selection {
                Some(ids) => (final(self)@.audio_choice != Choice::Automatic || final(self)@.subtitle_choice != Choice::Automatic) && texts(ids@) == final(self)@.selection(None, None),
                None => final(self)@.audio_choice == Choice::Automatic && final(self)@.subtitle_choice == Choice::Automatic,
            },
            shows_audio(result.audio, final(self)@),
            shows_subtitles(result.subtitles, final(self)@),
    {
        self.replace_stream_collection(streams);
        let audio_automatic = match &self.audio_choice {
            AudioChoice::Automatic => true,
            AudioChoice::Track(_) => false,
        };
        let subtitle_automatic = match &self.subtitle_choice {
            SubtitleChoice::Automatic => true,
            _ => false,
        };
        let selection = if audio_automatic && subtitle_automatic {
            None
        } else {
            Some(self.stream_selection_ids(None, None))
        };
        StreamUpdate {
            audio_count: self.audio_tracks.len(),
            subtitle_count: self.subtitle_tracks.len(),
            selection,
            audio: self.audio_snapshot(),
            subtitles: self.subtitle_snapshot(),
        }
    }

    fn replace_stream_collection(&mut self, streams: Vec<StreamInfo>)
        requires
            old(self).wf(),
        ensures
            final(self).wf(),
            final(self)@ == old(self)@.with_collection(streams@),
    {
        let ghost before = self@;
        self.audio_tracks = audio_tracks_of(&streams);
        self.subtitle_tracks = subtitle_tracks_of(&streams, &self.external);
        self.collection = Some(streams);
        let audio_gone = match &self.audio_choice {
            AudioChoice::Track(id) => find_audio(&self.audio_tracks, id.as_str()).is_none(),
            AudioChoice::Automatic => false,
        };
        if audio_gone {
            self.audio_choice = AudioChoice::Automatic;
        }
        let subtitle_gone = match &self.subtitle_choice {
            SubtitleChoice::Track(id) => find_subtitle(
                &self.subtitle_tracks,
                id.as_str(),
            ).is_none(),
            _ => false,
        };
        if subtitle_gone {
            self.subtitle_choice = SubtitleChoice::Automatic;
        }
        let last_gone = match &self.last_visible_subtitle_choice {
            SubtitleChoice::Track(id) => find_subtitle(
                &self.subtitle_tracks,
                id.as_str(),
            ).is_none(),
            _ => false,
        };
        if last_gone {
            self.last_visible_subtitle_choice = SubtitleChoice::Automatic;
        }
    }

    /// Takes in which streams are selected now. `selected` lists them in any order.
    pub fn observe_streams_selected(&mut self, selected: Vec<String>) -> (result: (
        AudioSnapshot,
        SubtitleSnapshot,
    ))
        requires
            old(self).wf(),
        ensures
            final(self).wf(),
            final(self)@ == (Session { selected: final(self)@.selected, ..old(self)@ }),
            forall|id: Seq<char>|
                final(self)@.selected.contains(id) <==> texts(selected@).contains(id),
            forall|i: int, j: int|
                0 <= i < j < final(self)@.selected.len() ==> crate::keymap::text_before(
                    #[trigger] final(self)@.selected[i],
                    #[trigger] final(self)@.selected[j],
                ),
            shows_audio(result.0, final(self)@),
            shows_subtitles(result.1, final(self)@),
    {
        let ghost before = self@;
        let mut set: KeyMap<bool> = KeyMap::new();
        assert(set@.dom() =~= Set::empty());
        for i in 0..selected.len()
            invariant
                set.wf(),
                forall|id: Seq<char>|
                    set@.dom().contains(id) <==> texts(selected@).take(i as int).contains(id),
        {
            let ghost sofar = set@;
            let id = selected[i].clone();
            set.insert(id, true);
            assert(texts(selected@)[i as int] == selected@[i as int]@);
            assert(texts(selected@).take(i + 1) =~= texts(selected@).take(i as int).push(
                texts(selected@)[i as int],
            ));
            assert forall|other: Seq<char>|
                set@.dom().contains(other) <==> texts(selected@).take(i + 1).contains(other) by {
                let shorter = texts(selected@).take(i as int);
                let longer = texts(selected@).take(i + 1);
                if longer.contains(other) {
                    let k = choose|k: int| 0 <= k < longer.len() && longer[k] == other;
                    if k < shorter.len() {
                        assert(shorter[k] == other);
                    }
                }
                if shorter.contains(other) {
                    let k = choose|k: int| 0 <= k < shorter.len() && shorter[k] == other;
                    assert(longer[k] == other);
                }
                assert(longer[i as int] == selected@[i as int]@);
            }
        }
        assert(texts(selected@).take(selected@.len() as int) =~= texts(selected@));
        self.selected = set;
        assert forall|id: Seq<char>|
            self@.selected.contains(id) <==> texts(selected@).contains(id) by {
            assert(set@.dom().contains(id) <==> set.keys().contains(id));
        }
        (self.audio_snapshot(), self.subtitle_snapshot())
    }

    fn selected_stream_id(&self, kind: StreamKind) -> (result: Option<String>)
        requires
            self.wf(),
        ensures
            text_view(result) == self@.selected_id(kind),
    {
        let streams = match &self.collection {
            Some(streams) => streams,
            None => return None,
        };
        let ghost keys = self.selected.keys();
        assert(keys.skip(0) =~= keys);
        let count: usize = self.selected.len();
        for i in 0..count
            invariant
                count == keys.len(),
                keys == self.selected.keys(),
                selected_of(streams@, keys, kind) == selected_of(
                    streams@,
                    keys.skip(i as int),
                    kind,
                ),
                self@.selected_id(kind) == selected_of(streams@, keys, kind),
        {
            assert(keys.skip(i as int)[0] == keys[i as int]);
            assert(keys.skip(i as int).skip(1) =~= keys.skip(i + 1));
            let id = self.selected.key_at(i);
            if stream_has_kind(streams, id, kind) {
                return Some(id.to_owned());
            }
        }
        None
    }

    pub fn audio_snapshot(&self) -> (result: AudioSnapshot)
        requires
            self.wf(),
        ensures
            shows_audio(result, self@),
    {
        let active_label = match self.selected_stream_id(StreamKind::Audio) {
            Some(id) => match find_audio(&self.audio_tracks, id.as_str()) {
                Some(at) => Some(self.audio_tracks[at].label.clone()),
                None => None,
            },
            None => None,
        };
        AudioSnapshot {
            tracks: copy_audio_tracks(&self.audio_tracks),
            choice: self.audio_choice.copy(),
            active_label,
        }
    }

    pub fn subtitle_snapshot(&self) -> (result: SubtitleSnapshot)
        requires
            self.wf(),
        ensures
            shows_subtitles(result, self@),
    {
        let active_label = match self.selected_stream_id(StreamKind::Text) {
            Some(id) => match find_subtitle(&self.subtitle_tracks, id.as_str()) {
                Some(at) => Some(self.subtitle_tracks[at].label.clone()),
                None => None,
            },
            None => None,
        };
        SubtitleSnapshot {
            tracks: copy_subtitle_tracks(&self.subtitle_tracks),
            choice: self.subtitle_choice.copy(),
            active_label,
        }
    }

    fn active_or_default_id(&self, streams: &Vec<StreamInfo>, kind: StreamKind) -> (result: Option<
        String,
    >)
        requires
            self.wf(),
            self@.collection == Some(streams@),
        ensures
            text_view(result) == self@.active_or_default(kind),
    {
        match self.selected_stream_id(kind) {
            Some(id) => Some(id),
            None => default_stream_id(streams, kind),
        }
    }

    /// The streams to select for the choices, or for one that is asked for.
    pub fn stream_selection_ids(
        &self,
        audio_request: Option<&AudioChoice>,
        subtitle_request: Option<&SubtitleChoice>,
    ) -> (result: Vec<String>)
        requires
            self.wf(),
        ensures
            texts(result@) == self@.selection(
                match audio_request {
                    Some(choice) => Some(choice@),
                    None => None,
                },
                match subtitle_request {
                    Some(choice) => Some(choice@),
                    None => None,
                },
            ),
    {
        let mut selected: Vec<String> = Vec::new();
        assert(texts(selected@) =~= Seq::<Seq<char>>::empty());
        let streams = match &self.collection {
            Some(streams) => streams,
            None => return selected,
        };
        let video = self.active_or_default_id(streams, StreamKind::Video);
        let audio_choice = match audio_request {
            Some(choice) => choice,
            None => &self.audio_choice,
        };
        let audio = match audio_choice {
            AudioChoice::Track(id) => if find_audio(&self.audio_tracks, id.as_str()).is_some() {
                Some(id.clone())
            } else {
                default_stream_id(streams, StreamKind::Audio)
            },
            AudioChoice::Automatic => if audio_request.is_none() {
                self.active_or_default_id(streams, StreamKind::Audio)
            } else {
                default_stream_id(streams, StreamKind::Audio)
            },
        };
        let subtitle_choice = match subtitle_request {
            Some(choice) => choice,
            None => &self.subtitle_choice,
        };
        let text = match subtitle_choice {
            SubtitleChoice::Off => None,
            SubtitleChoice::Track(id) => if find_subtitle(
                &self.subtitle_tracks,
                id.as_str(),
            ).is_some() {
                Some(id.clone())
            } else {
                default_stream_id(streams, StreamKind::Text)
            },
            SubtitleChoice::Automatic => if subtitle_request.is_none() {
                self.active_or_default_id(streams, StreamKind::Text)
            } else {
                default_stream_id(streams, StreamKind::Text)
            },
        };
        push_id(&mut selected, video);
        push_id(&mut selected, audio);
        push_id(&mut selected, text);
        assert(texts(selected@) =~= as_list(text_view(video)) + as_list(text_view(audio)) + as_list(
            text_view(text),
        ));
        selected
    }

    /// The streams to select for an audio choice, where it is available.
    pub fn requested_audio_choice(&self, choice: &AudioChoice) -> (result: Option<Vec<String>>)
        requires
            self.wf(),
        ensures
            match result {
                Some(ids) => self@.audio_available(choice@) && texts(ids@) == self@.selection(
                    Some(choice@),
                    None,
                ),
                None => !self@.audio_available(choice@),
            },
    {
        let available = match choice {
            AudioChoice::Automatic => true,
            AudioChoice::Track(id) => find_audio(&self.audio_tracks, id.as_str()).is_some(),
        };
        if available {
            Some(self.stream_selection_ids(Some(choice), None))
        } else {
            None
        }
    }

    pub fn set_audio_choice(&mut self, choice: AudioChoice)
        requires
            old(self).wf(),
        ensures
            final(self)@ == (Session { audio_choice: choice@, ..old(self)@ }),
            final(self).wf(),
    {
        self.audio_choice = choice;
    }

    /// The streams to select for a subtitle choice, where it is available.
    pub fn requested_subtitle_choice(&self, choice: &SubtitleChoice) -> (result: Option<
        Vec<String>,
    >)
        requires
            self.wf(),
        ensures
            match result {
                Some(ids) => self@.subtitle_available(choice@) && texts(ids@) == self@.selection(
                    None,
                    Some(choice@),
                ),
                None => !self@.subtitle_available(choice@),
            },
    {
        let available = match choice {
            SubtitleChoice::Automatic => true,
            SubtitleChoice::Off => true,
            SubtitleChoice::Track(id) => find_subtitle(
                &self.subtitle_tracks,
                id.as_str(),
            ).is_some(),
        };
        if available {
            Some(self.stream_selection_ids(None, Some(choice)))
        } else {
            None
        }
    }

    /// Sets the subtitle choice; one that shows something is remembered.
    pub fn set_subtitle_choice(&mut self, choice: SubtitleChoice)
        requires
            old(self).wf(),
        ensures
            final(self)@ == old(self)@.with_subtitle_choice(choice@),
            final(self).wf(),
    {
        match &choice {
            SubtitleChoice::Off => {},
            _ => {
                self.last_visible_subtitle_choice = choice.copy();
            },
        }
        self.subtitle_choice = choice;
    }

    pub fn reset_subtitle_choice(&mut self)
        requires
            old(self).wf(),
        ensures
            final(self)@ == (Session {
                subtitle_choice: Choice::Automatic,
                last_visible: Choice::Automatic,
                ..old(self)@
            }),
            final(self).wf(),
    {
        self.subtitle_choice = SubtitleChoice::Automatic;
        self.last_visible_subtitle_choice = SubtitleChoice::Automatic;
    }

    /// The choice that toggling leads to.
    pub fn toggled_subtitle_choice(&self) -> (result: SubtitleChoice)
        ensures
            result@ == self@.toggled(),
    {
        match &self.subtitle_choice {
            SubtitleChoice::Off => {},
            _ => return SubtitleChoice::Off,
        }
        match &self.last_visible_subtitle_choice {
            SubtitleChoice::Track(id) => if find_subtitle(
                &self.subtitle_tracks,
                id.as_str(),
            ).is_some() {
                SubtitleChoice::Track(id.clone())
            } else {
                SubtitleChoice::Automatic
            },
            _ => SubtitleChoice::Automatic,
        }
    }

    /// The choice that toggling leads to, where there are subtitles.
    pub fn subtitle_toggle_choice(&self) -> (result: Option<SubtitleChoice>)
        ensures
            match result {
                Some(choice) => self@.subtitle_tracks.len() > 0 && choice@ == self@.toggled(),
                None => self@.subtitle_tracks.len() == 0,
            },
    {
        if self.subtitle_tracks.len() == 0 {
            None
        } else {
            Some(self.toggled_subtitle_choice())
        }
    }

    /// The track at a place, or none where there are no more.
    fn subtitle_at(&self, at: usize) -> (result: SubtitleChoice)
        ensures
            result@ == self@.track_choice(at as int),
    {
        if at < self.subtitle_tracks.len() {
            SubtitleChoice::Track(self.subtitle_tracks[at].id.clone())
        } else {
            SubtitleChoice::Off
        }
    }

    /// The choice that cycling leads to: each track in turn, then none.
    pub fn cycled_subtitle_choice(&self) -> (result: SubtitleChoice)
        requires
            self.wf(),
        ensures
            result@ == self@.cycled(),
    {
        let current = match &self.subtitle_choice {
            SubtitleChoice::Off => return self.subtitle_at(0),
            SubtitleChoice::Track(id) => Some(id.clone()),
            SubtitleChoice::Automatic => self.selected_stream_id(StreamKind::Text),
        };
        let count: usize = self.subtitle_tracks.len();
        match current {
            Some(id) => match find_subtitle(&self.subtitle_tracks, id.as_str()) {
                Some(at) => if at < count {
                    self.subtitle_at(at + 1)
                } else {
                    SubtitleChoice::Off
                },
                None => SubtitleChoice::Off,
            },
            None => SubtitleChoice::Off,
        }
    }

    /// The choice that cycling leads to, where there are subtitles.
    pub fn subtitle_cycle_choice(&self) -> (result: Option<SubtitleChoice>)
        requires
            self.wf(),
        ensures
            match result {
                Some(choice) => self@.subtitle_tracks.len() > 0 && choice@ == self@.cycled(),
                None => self@.subtitle_tracks.len() == 0,
            },
    {
        if self.subtitle_tracks.len() == 0 {
            None
        } else {
            Some(self.cycled_subtitle_choice())
        }
    }

    /// Where playback would go on: the point of a running rebuild, or else the start.
    pub fn resume_point(&self) -> (result: (i64, u32, bool))
        ensures
            result == match self@.resume {
                Some(state) => (state.position, state.rate, state.play_after_seek),
                None => (0i64, self@.rate, true),
            },
    {
        match self.resume {
            Some(state) => (state.position, state.rate, state.play_after_seek),
            None => (0, self.playback_rate, true),
        }
    }

    /// Begins to handle an error, unless one is being handled.
    pub fn begin_error(&mut self) -> (result: Option<ErrorContext>)
        requires
            old(self).wf(),
        ensures
            final(self)@ == (Session { error_pending: true, ..old(self)@ }),
            final(self).wf(),
            match result {
                Some(context) => !old(self)@.error_pending && context.is_of(old(self)@)
                    && context.generation() == old(self)@.generation && context.external() == old(self)@.external,
                None => old(self)@.error_pending,
            },
    {
        if self.error_pending {
            return None;
        }
        self.error_pending = true;
        Some(self.context())
    }

    /// Identifies the session.
    pub fn context(&self) -> (result: ErrorContext)
        ensures
            result.is_of(self@),
            result.generation() == self@.generation,
            result.external() == self@.external,
    {
        ErrorContext { generation: self.generation, external: copy_path(&self.external) }
    }

    /// Whether an error is still of this session, with the same subtitle attached.
    pub fn error_is_current(&self, context: &ErrorContext) -> (result: bool)
        ensures
            result == context.is_of(self@),
    {
        if self.generation != context.generation {
            return false;
        }
        match (&self.external, &context.external) {
            (Some(left), Some(right)) => same_path(left.as_slice(), right.as_slice()),
            (None, None) => true,
            _ => false,
        }
    }

    /// Ends the handling of an error of this session.
    pub fn finish_error(&mut self, context: &ErrorContext)
        requires
            old(self).wf(),
        ensures
            final(self)@ == (if old(self)@.generation == context.generation() {
                Session { error_pending: false, ..old(self)@ }
            } else {
                old(self)@
            }),
            final(self).wf(),
    {
        if self.generation == context.generation {
            self.error_pending = false;
        }
    }
}

fn push_id(list: &mut Vec<String>, id: Option<String>)
    ensures
        texts(final(list)@) == texts(old(list)@) + as_list(text_view(id)),
{
    let ghost before = texts(list@);
    match id {
        Some(text) => {
            list.push(text);
            assert(texts(list@) =~= before + seq![text@]);
        },
        None => {
            assert(texts(list@) =~= before + Seq::<Seq<char>>::empty());
        },
    }
}

impl Default for FocusedPlayback {
    fn default() -> (result: Self)
        ensures
            result@ == Session::fresh(0, true),
            result.wf(),
    {
        FocusedPlayback::new()
    }
}

/// An error of an earlier session is never taken for one of the session that
/// followed it, even for the same video and subtitle.
pub proof fn stale_errors_are_rejected(
    session: Session,
    context: ErrorContext,
    path: Seq<u8>,
    external: Option<Seq<u8>>,
    subtitles_on: bool,
)
    requires
        context.is_of(session),
    ensures
        !context.is_of(session.started(path, external, subtitles_on)),
{
}

/// Whether an id is that of a video stream of a collection.
pub open spec fn names_video(streams: Seq<StreamInfo>, id: Seq<char>) -> bool {
    exists|i: int|
        0 <= i < streams.len() && (#[trigger] streams[i]).video && streams[i].id is Some
            && streams[i].id->0@ == id
}

/// Whether an id is that of an audio stream of a collection.
pub open spec fn names_audio(streams: Seq<StreamInfo>, id: Seq<char>) -> bool {
    exists|i: int|
        0 <= i < streams.len() && (#[trigger] streams[i]).audio && streams[i].id is Some
            && streams[i].id->0@ == id
}

/// Whether an id is that of a text stream of a collection.
pub open spec fn names_text(streams: Seq<StreamInfo>, id: Seq<char>) -> bool {
    exists|i: int|
        0 <= i < streams.len() && (#[trigger] streams[i]).text && streams[i].id is Some
            && streams[i].id->0@ == id
}

/// Whether each id names one stream, and each stream is of one kind at most.
pub open spec fn told_apart(streams: Seq<StreamInfo>) -> bool {
    &&& forall|i: int, j: int|
        0 <= i < j < streams.len() && (#[trigger] streams[i]).id is Some && (
        #[trigger] streams[j]).id is Some ==> streams[i].id->0@ != streams[j].id->0@
    &&& forall|i: int|
        0 <= i < streams.len() ==> !((#[trigger] streams[i]).audio && streams[i].video) && !(
        streams[i].audio && streams[i].text) && !(streams[i].video && streams[i].text)
}

/// The tracks of a collection are its streams: every audio track is an audio stream and
/// every subtitle track a text stream, and every such stream that has an id is a track.
pub proof fn tracks_are_the_streams(streams: Seq<StreamInfo>, external: Option<Seq<char>>)
    ensures
        forall|k: int|
            0 <= k < audio_list(streams).len() ==> names_audio(
                streams,
                (#[trigger] audio_list(streams)[k]).id,
            ),
        forall|k: int|
            0 <= k < subtitle_list(streams, external).len() ==> names_text(
                streams,
                (#[trigger] subtitle_list(streams, external)[k]).id,
            ),
        forall|i: int|
            0 <= i < streams.len() && (#[trigger] streams[i]).audio && streams[i].id is Some
                ==> lists_track(audio_list(streams), streams[i].id->0@),
        forall|i: int|
            0 <= i < streams.len() && (#[trigger] streams[i]).text && streams[i].id is Some
                ==> lists_track(subtitle_list(streams, external), streams[i].id->0@),
    decreases streams.len(),
{
    if streams.len() > 0 {
        let fewer = streams.drop_last();
        let last = streams.last();
        tracks_are_the_streams(fewer, external);
        let (audio, earlier) = (audio_list(streams), audio_list(fewer));
        let (texts, before) = (subtitle_list(streams, external), subtitle_list(fewer, external));
        assert forall|k: int| 0 <= k < audio.len() implies names_audio(
            streams,
            (#[trigger] audio[k]).id,
        ) by {
            if k < earlier.len() {
                assert(audio[k] == earlier[k]);
                let i = choose|i: int|
                    0 <= i < fewer.len() && (#[trigger] fewer[i]).audio && fewer[i].id is Some
                        && fewer[i].id->0@ == earlier[k].id;
                assert(streams[i] == fewer[i]);
            } else {
                assert(streams[streams.len() - 1].audio);
            }
        }
        assert forall|k: int| 0 <= k < texts.len() implies names_text(
            streams,
            (#[trigger] texts[k]).id,
        ) by {
            if k < before.len() {
                assert(texts[k] == before[k]);
                let i = choose|i: int|
                    0 <= i < fewer.len() && (#[trigger] fewer[i]).text && fewer[i].id is Some
                        && fewer[i].id->0@ == before[k].id;
                assert(streams[i] == fewer[i]);
            } else {
                assert(streams[streams.len() - 1].text);
            }
        }
        assert forall|i: int|
            0 <= i < streams.len() && (#[trigger] streams[i]).audio && streams[i].id
                is Some implies lists_track(audio, streams[i].id->0@) by {
            if i < fewer.len() {
                assert(fewer[i] == streams[i]);
                let k = choose|k: int|
                    0 <= k < earlier.len() && (#[trigger] earlier[k]).id == fewer[i].id->0@;
                assert(audio[k] == earlier[k]);
            } else {
                assert(audio[audio.len() - 1].id == last.id->0@);
            }
        }
        assert forall|i: int|
            0 <= i < streams.len() && (#[trigger] streams[i]).text && streams[i].id
                is Some implies lists_track(texts, streams[i].id->0@) by {
            if i < fewer.len() {
                assert(fewer[i] == streams[i]);
                let k = choose|k: int|
                    0 <= k < before.len() && (#[trigger] before[k]).id == fewer[i].id->0@;
                assert(texts[k] == before[k]);
            } else {
                assert(texts[texts.len() - 1].id == last.id->0@);
            }
        }
    }
}

/// A track goes by the title of its stream, else by the name of its language, else by
/// the language's code; a track of the last stream without any of them is numbered
/// after all streams of its kind.
pub proof fn tracks_go_by_their_tags(streams: Seq<StreamInfo>, external: Option<Seq<char>>)
    requires
        streams.len() > 0,
        streams.last().id is Some,
    ensures
        ({
            let stream = streams.last();
            let audio = audio_list(streams).last().label;
            let text = subtitle_list(streams, external).last().label;
            &&& stream.audio ==> audio_list(streams).len() == audio_list(streams.drop_last()).len()
                + 1
            &&& stream.text ==> subtitle_list(streams, external).len() == subtitle_list(
                streams.drop_last(),
                external,
            ).len() + 1
            &&& stream.title is Some ==> (stream.audio ==> audio == stream.title->0@) && (stream.text
                ==> text == stream.title->0@)
            &&& stream.title is None && stream.language_name is Some ==> (stream.audio ==> audio
                == stream.language_name->0@) && (stream.text ==> text
                == stream.language_name->0@)
            &&& stream.title is None && stream.language_name is None && stream.language_code is Some
                ==> (stream.audio ==> audio == stream.language_code->0@) && (stream.text ==> text
                == stream.language_code->0@)
            &&& stream.title is None && stream.language_name is None && stream.language_code is None
                ==> (stream.audio ==> audio == "Audio "@ + decimal_digits(
                count_of(streams, StreamKind::Audio),
            )) && (stream.text ==> text == (match external {
                Some(label) => label,
                None => "Subtitle "@ + decimal_digits(count_of(streams, StreamKind::Text)),
            }))
        }),
{
}

/// Counting the streams of a kind goes by what each stream says of itself.
pub proof fn streams_are_counted_by_kind(streams: Seq<StreamInfo>, stream: StreamInfo)
    ensures
        count_of(streams.push(stream), StreamKind::Audio) == count_of(streams, StreamKind::Audio)
            + if stream.audio {
            1nat
        } else {
            0
        },
        count_of(streams.push(stream), StreamKind::Video) == count_of(streams, StreamKind::Video)
            + if stream.video {
            1nat
        } else {
            0
        },
        count_of(streams.push(stream), StreamKind::Text) == count_of(streams, StreamKind::Text)
            + if stream.text {
            1nat
        } else {
            0
        },
        count_of(Seq::<StreamInfo>::empty(), StreamKind::Audio) == 0,
        count_of(Seq::<StreamInfo>::empty(), StreamKind::Text) == 0,
{
    assert(streams.push(stream).drop_last() =~= streams);
}

/// Where a video has one text stream and a subtitle file is attached, a stream without a
/// tag goes by the file's name; with several text streams none does.
pub proof fn an_attached_file_names_its_track(streams: Seq<StreamInfo>, external: Seq<u8>, name: Seq<u8>)
    requires
        file_name(external) == Some(name),
    ensures
        count_of(streams, StreamKind::Text) == 1 ==> usable_external(streams, Some(external))
            == Some("External — "@ + lossy_text(name)),
        count_of(streams, StreamKind::Text) > 1 ==> usable_external(streams, Some(external)) is None,
        usable_external(streams, None) is None,
{
}

proof fn stream_at_bounds(streams: Seq<StreamInfo>, id: Seq<char>)
    ensures
        0 <= stream_at(streams, id) <= streams.len(),
        stream_at(streams, id) < streams.len() ==> streams[stream_at(streams, id)].id_text()
            == Some(id),
        forall|i: int|
            0 <= i < stream_at(streams, id) ==> (#[trigger] streams[i]).id_text() != Some(id),
    decreases streams.len(),
{
    if streams.len() > 0 && streams[0].id_text() != Some(id) {
        let rest = streams.skip(1);
        stream_at_bounds(rest, id);
        if stream_at(streams, id) < streams.len() {
            assert(rest[stream_at(rest, id)] == streams[stream_at(streams, id)]);
        }
        assert forall|i: int| 0 <= i < stream_at(streams, id) implies (
        #[trigger] streams[i]).id_text() != Some(id) by {
            if i > 0 {
                assert(rest[i - 1] == streams[i]);
            }
        }
    }
}

proof fn asked_at_bounds(streams: Seq<StreamInfo>, kind: StreamKind)
    ensures
        0 <= asked_at(streams, kind) <= streams.len(),
        asked_at(streams, kind) < streams.len() ==> streams[asked_at(streams, kind)].is(kind)
            && streams[asked_at(streams, kind)].select,
        forall|i: int|
            0 <= i < asked_at(streams, kind) ==> !((#[trigger] streams[i]).is(kind)
                && streams[i].select),
    decreases streams.len(),
{
    if streams.len() > 0 && !(streams[0].is(kind) && streams[0].select) {
        let rest = streams.skip(1);
        asked_at_bounds(rest, kind);
        if asked_at(streams, kind) < streams.len() {
            assert(rest[asked_at(rest, kind)] == streams[asked_at(streams, kind)]);
        }
        assert forall|i: int| 0 <= i < asked_at(streams, kind) implies !((
        #[trigger] streams[i]).is(kind) && streams[i].select) by {
            if i > 0 {
                assert(rest[i - 1] == streams[i]);
            }
        }
    }
}

proof fn allowed_at_bounds(streams: Seq<StreamInfo>, kind: StreamKind)
    ensures
        0 <= allowed_at(streams, kind) <= streams.len(),
        allowed_at(streams, kind) < streams.len() ==> streams[allowed_at(streams, kind)].is(kind)
            && !streams[allowed_at(streams, kind)].unselect,
        forall|i: int|
            0 <= i < allowed_at(streams, kind) ==> !((#[trigger] streams[i]).is(kind)
                && !streams[i].unselect),
    decreases streams.len(),
{
    if streams.len() > 0 && !(streams[0].is(kind) && !streams[0].unselect) {
        let rest = streams.skip(1);
        allowed_at_bounds(rest, kind);
        if allowed_at(streams, kind) < streams.len() {
            assert(rest[allowed_at(rest, kind)] == streams[allowed_at(streams, kind)]);
        }
        assert forall|i: int| 0 <= i < allowed_at(streams, kind) implies !((
        #[trigger] streams[i]).is(kind) && !streams[i].unselect) by {
            if i > 0 {
                assert(rest[i - 1] == streams[i]);
            }
        }
    }
}

proof fn selected_of_is_selected(
    streams: Seq<StreamInfo>,
    selected: Seq<Seq<char>>,
    kind: StreamKind,
)
    ensures
        match selected_of(streams, selected, kind) {
            Some(id) => selected.contains(id) && id_has_kind(streams, id, kind),
            None => forall|k: int|
                0 <= k < selected.len() ==> !id_has_kind(streams, #[trigger] selected[k], kind),
        },
    decreases selected.len(),
{
    if selected.len() > 0 && !id_has_kind(streams, selected[0], kind) {
        let rest = selected.skip(1);
        selected_of_is_selected(streams, rest, kind);
        match selected_of(streams, rest, kind) {
            Some(id) => {
                let k = choose|k: int| 0 <= k < rest.len() && rest[k] == id;
                assert(selected[k + 1] == id);
            },
            None => {
                assert forall|k: int| 0 <= k < selected.len() implies !id_has_kind(
                    streams,
                    #[trigger] selected[k],
                    kind,
                ) by {
                    if k > 0 {
                        assert(rest[k - 1] == selected[k]);
                    }
                }
            },
        }
    } else if selected.len() > 0 {
        assert(selected[0] == selected_of(streams, selected, kind)->0);
    }
}

/// The default of a kind is its first stream that asks to be selected. Where none asks,
/// it is the first that does not ask to be left out.
pub proof fn defaults_are_asked_for(streams: Seq<StreamInfo>, at: int)
    requires
        0 <= at < streams.len(),
        streams[at].id is Some,
    ensures
        streams[at].audio && streams[at].select && (forall|i: int|
            0 <= i < at ==> !((#[trigger] streams[i]).audio && streams[i].select)) ==> default_of(
            streams,
            StreamKind::Audio,
        ) == Some(streams[at].id->0@),
        streams[at].text && streams[at].select && (forall|i: int|
            0 <= i < at ==> !((#[trigger] streams[i]).text && streams[i].select)) ==> default_of(
            streams,
            StreamKind::Text,
        ) == Some(streams[at].id->0@),
        streams[at].video && streams[at].select && (forall|i: int|
            0 <= i < at ==> !((#[trigger] streams[i]).video && streams[i].select)) ==> default_of(
            streams,
            StreamKind::Video,
        ) == Some(streams[at].id->0@),
        (forall|i: int|
            0 <= i < streams.len() ==> !((#[trigger] streams[i]).text && streams[i].select))
            && streams[at].text && !streams[at].unselect && (forall|i: int|
            0 <= i < at ==> !((#[trigger] streams[i]).text && !streams[i].unselect)) ==> default_of(
            streams,
            StreamKind::Text,
        ) == Some(streams[at].id->0@),
        (forall|i: int|
            0 <= i < streams.len() ==> !((#[trigger] streams[i]).audio && streams[i].select))
            && streams[at].audio && !streams[at].unselect && (forall|i: int|
            0 <= i < at ==> !((#[trigger] streams[i]).audio && !streams[i].unselect)) ==> default_of(
            streams,
            StreamKind::Audio,
        ) == Some(streams[at].id->0@),
        (forall|i: int|
            0 <= i < streams.len() ==> !((#[trigger] streams[i]).video && streams[i].select))
            && streams[at].video && !streams[at].unselect && (forall|i: int|
            0 <= i < at ==> !((#[trigger] streams[i]).video && !streams[i].unselect)) ==> default_of(
            streams,
            StreamKind::Video,
        ) == Some(streams[at].id->0@),
        (forall|i: int|
            0 <= i < streams.len() ==> ((#[trigger] streams[i]).text ==> !streams[i].select
                && streams[i].unselect)) ==> default_of(streams, StreamKind::Text) is None,
{
    default_is_first(streams, StreamKind::Audio, at);
    default_is_first(streams, StreamKind::Text, at);
    default_is_first(streams, StreamKind::Video, at);
}

proof fn default_is_first(streams: Seq<StreamInfo>, kind: StreamKind, at: int)
    requires
        0 <= at < streams.len(),
        streams[at].id is Some,
    ensures
        streams[at].is(kind) && streams[at].select && (forall|i: int|
            0 <= i < at ==> !((#[trigger] streams[i]).is(kind) && streams[i].select))
            ==> default_of(streams, kind) == Some(streams[at].id->0@),
        (forall|i: int|
            0 <= i < streams.len() ==> !((#[trigger] streams[i]).is(kind) && streams[i].select))
            && streams[at].is(kind) && !streams[at].unselect && (forall|i: int|
            0 <= i < at ==> !((#[trigger] streams[i]).is(kind) && !streams[i].unselect))
            ==> default_of(streams, kind) == Some(streams[at].id->0@),
        (forall|i: int|
            0 <= i < streams.len() ==> ((#[trigger] streams[i]).is(kind) ==> !streams[i].select
                && streams[i].unselect)) ==> default_of(streams, kind) is None,
{
    asked_at_bounds(streams, kind);
    allowed_at_bounds(streams, kind);
    let asked = asked_at(streams, kind);
    let allowed = allowed_at(streams, kind);
    if streams[at].is(kind) && streams[at].select && asked < at {
        assert(streams[asked].is(kind) && streams[asked].select);
    }
    if streams[at].is(kind) && !streams[at].unselect && allowed < at {
        assert(streams[allowed].is(kind) && !streams[allowed].unselect);
    }
}

/// What stands for a stream of a kind names such a stream.
proof fn chosen_streams_are_of_the_collection(session: Session, choice: Choice, asked: bool)
    requires
        session.collection is Some,
        told_apart(session.collection->0),
        forall|k: int|
            0 <= k < session.audio_tracks.len() ==> names_audio(
                session.collection->0,
                (#[trigger] session.audio_tracks[k]).id,
            ),
        forall|k: int|
            0 <= k < session.subtitle_tracks.len() ==> names_text(
                session.collection->0,
                (#[trigger] session.subtitle_tracks[k]).id,
            ),
    ensures
        session.active_or_default(StreamKind::Video) matches Some(id) ==> names_video(
            session.collection->0,
            id,
        ),
        session.stream_for(choice, asked, session.audio_tracks, StreamKind::Audio) matches Some(id)
            ==> names_audio(session.collection->0, id),
        session.stream_for(choice, asked, session.subtitle_tracks, StreamKind::Text) matches Some(id)
            ==> names_text(session.collection->0, id),
{
    let streams = session.collection->0;
    asked_at_bounds(streams, StreamKind::Video);
    allowed_at_bounds(streams, StreamKind::Video);
    selected_of_is_selected(streams, session.selected, StreamKind::Video);
    asked_at_bounds(streams, StreamKind::Audio);
    allowed_at_bounds(streams, StreamKind::Audio);
    selected_of_is_selected(streams, session.selected, StreamKind::Audio);
    asked_at_bounds(streams, StreamKind::Text);
    allowed_at_bounds(streams, StreamKind::Text);
    selected_of_is_selected(streams, session.selected, StreamKind::Text);
    if let Some(id) = session.active_or_default(StreamKind::Video) {
        stream_at_bounds(streams, id);
        if selected_of(streams, session.selected, StreamKind::Video) is Some {
            assert(streams[stream_at(streams, id)].video);
        } else if asked_at(streams, StreamKind::Video) < streams.len() {
            assert(streams[asked_at(streams, StreamKind::Video)].video);
        } else {
            assert(streams[allowed_at(streams, StreamKind::Video)].video);
        }
    }
    if let Some(id) = session.stream_for(choice, asked, session.audio_tracks, StreamKind::Audio) {
        stream_at_bounds(streams, id);
        if choice is Track && lists_track(session.audio_tracks, choice->Track_0) {
            let k = choose|k: int|
                0 <= k < session.audio_tracks.len() && (#[trigger] session.audio_tracks[k]).id
                    == choice->Track_0;
            assert(names_audio(streams, session.audio_tracks[k].id));
        } else if choice is Automatic && !asked && selected_of(
            streams,
            session.selected,
            StreamKind::Audio,
        ) is Some {
            assert(streams[stream_at(streams, id)].audio);
        } else if asked_at(streams, StreamKind::Audio) < streams.len() {
            assert(streams[asked_at(streams, StreamKind::Audio)].audio);
        } else {
            assert(streams[allowed_at(streams, StreamKind::Audio)].audio);
        }
    }
    if let Some(id) = session.stream_for(choice, asked, session.subtitle_tracks, StreamKind::Text) {
        stream_at_bounds(streams, id);
        if choice is Track && lists_track(session.subtitle_tracks, choice->Track_0) {
            let k = choose|k: int|
                0 <= k < session.subtitle_tracks.len() && (#[trigger] session.subtitle_tracks[k]).id
                    == choice->Track_0;
            assert(names_text(streams, session.subtitle_tracks[k].id));
        } else if choice is Automatic && !asked && selected_of(
            streams,
            session.selected,
            StreamKind::Text,
        ) is Some {
            assert(streams[stream_at(streams, id)].text);
        } else if asked_at(streams, StreamKind::Text) < streams.len() {
            assert(streams[asked_at(streams, StreamKind::Text)].text);
        } else {
            assert(streams[allowed_at(streams, StreamKind::Text)].text);
        }
    }
}

/// In a collection that tells its streams apart, no id is of two kinds.
proof fn kinds_do_not_mix(streams: Seq<StreamInfo>, id: Seq<char>)
    requires
        told_apart(streams),
    ensures
        !(names_video(streams, id) && names_audio(streams, id)),
        !(names_video(streams, id) && names_text(streams, id)),
        !(names_audio(streams, id) && names_text(streams, id)),
{
    let v = choose|i: int|
        0 <= i < streams.len() && (#[trigger] streams[i]).video && streams[i].id is Some
            && streams[i].id->0@ == id;
    let a = choose|i: int|
        0 <= i < streams.len() && (#[trigger] streams[i]).audio && streams[i].id is Some
            && streams[i].id->0@ == id;
    let t = choose|i: int|
        0 <= i < streams.len() && (#[trigger] streams[i]).text && streams[i].id is Some
            && streams[i].id->0@ == id;
    if names_video(streams, id) && names_audio(streams, id) {
        assert(v < a || a < v || v == a);
        if v < a {
            assert(streams[v].id->0@ != streams[a].id->0@);
        } else if a < v {
            assert(streams[a].id->0@ != streams[v].id->0@);
        }
    }
    if names_video(streams, id) && names_text(streams, id) {
        if v < t {
            assert(streams[v].id->0@ != streams[t].id->0@);
        } else if t < v {
            assert(streams[t].id->0@ != streams[v].id->0@);
        }
    }
    if names_audio(streams, id) && names_text(streams, id) {
        if a < t {
            assert(streams[a].id->0@ != streams[t].id->0@);
        } else if t < a {
            assert(streams[t].id->0@ != streams[a].id->0@);
        }
    }
}

/// What is selected is what was chosen. Every selected id is one of the collection, with
/// at most one of each kind. With subtitles off no text stream is selected; with a track
/// chosen its stream is, and no other of its kind.
pub proof fn selections_follow_the_choices(
    session: Session,
    audio_request: Option<Choice>,
    subtitle_request: Option<Choice>,
)
    requires
        session.collection is Some,
        told_apart(session.collection->0),
        forall|k: int|
            0 <= k < session.audio_tracks.len() ==> names_audio(
                session.collection->0,
                (#[trigger] session.audio_tracks[k]).id,
            ),
        forall|k: int|
            0 <= k < session.subtitle_tracks.len() ==> names_text(
                session.collection->0,
                (#[trigger] session.subtitle_tracks[k]).id,
            ),
    ensures
        ({
            let streams = session.collection->0;
            let ids = session.selection(audio_request, subtitle_request);
            let audio = if audio_request is Some {
                audio_request->0
            } else {
                session.audio_choice
            };
            let subtitle = if subtitle_request is Some {
                subtitle_request->0
            } else {
                session.subtitle_choice
            };
            &&& forall|k: int|
                0 <= k < ids.len() ==> names_video(streams, #[trigger] ids[k]) || names_audio(
                    streams,
                    ids[k],
                ) || names_text(streams, ids[k])
            &&& forall|j: int, k: int|
                0 <= j < k < ids.len() ==> !(names_video(streams, #[trigger] ids[j]) && names_video(
                    streams,
                    #[trigger] ids[k],
                )) && !(names_audio(streams, ids[j]) && names_audio(streams, ids[k])) && !(
                names_text(streams, ids[j]) && names_text(streams, ids[k]))
            &&& subtitle == Choice::Off ==> forall|k: int|
                0 <= k < ids.len() ==> !names_text(streams, #[trigger] ids[k])
            &&& subtitle matches Choice::Track(id) ==> (lists_track(session.subtitle_tracks, id)
                ==> ids.contains(id) && forall|k: int|
                0 <= k < ids.len() && names_text(streams, #[trigger] ids[k]) ==> ids[k] == id)
            &&& audio matches Choice::Track(id) ==> (lists_track(session.audio_tracks, id)
                ==> ids.contains(id) && forall|k: int|
                0 <= k < ids.len() && names_audio(streams, #[trigger] ids[k]) ==> ids[k] == id)
        }),
{
    let streams = session.collection->0;
    let ids = session.selection(audio_request, subtitle_request);
    let audio = if audio_request is Some {
        audio_request->0
    } else {
        session.audio_choice
    };
    let subtitle = if subtitle_request is Some {
        subtitle_request->0
    } else {
        session.subtitle_choice
    };
    let v = as_list(session.active_or_default(StreamKind::Video));
    let a = as_list(
        session.stream_for(audio, audio_request is Some, session.audio_tracks, StreamKind::Audio),
    );
    let t = as_list(
        session.stream_for(
            subtitle,
            subtitle_request is Some,
            session.subtitle_tracks,
            StreamKind::Text,
        ),
    );
    chosen_streams_are_of_the_collection(session, audio, audio_request is Some);
    chosen_streams_are_of_the_collection(session, subtitle, subtitle_request is Some);
    assert(ids =~= v + a + t);
    assert forall|k: int| 0 <= k < ids.len() implies (k < v.len() ==> names_video(
        streams,
        #[trigger] ids[k],
    )) && (v.len() <= k < v.len() + a.len() ==> names_audio(streams, ids[k])) && (v.len() + a.len()
        <= k ==> names_text(streams, ids[k])) by {
        if k < v.len() {
            assert(ids[k] == v[k]);
        } else if k < v.len() + a.len() {
            assert(ids[k] == a[k - v.len()]);
        } else {
            assert(ids[k] == t[k - v.len() - a.len()]);
        }
    }
    assert forall|j: int, k: int| 0 <= j < k < ids.len() implies !(names_video(
        streams,
        #[trigger] ids[j],
    ) && names_video(streams, #[trigger] ids[k])) && !(names_audio(streams, ids[j]) && names_audio(
        streams,
        ids[k],
    )) && !(names_text(streams, ids[j]) && names_text(streams, ids[k])) by {
        kinds_do_not_mix(streams, ids[j]);
        kinds_do_not_mix(streams, ids[k]);
    }
    if subtitle == Choice::Off {
        assert forall|k: int| 0 <= k < ids.len() implies !names_text(streams, #[trigger] ids[k]) by {
            kinds_do_not_mix(streams, ids[k]);
        }
    }
    if let Choice::Track(id) = subtitle {
        if lists_track(session.subtitle_tracks, id) {
            assert(ids[ids.len() - 1] == id);
            assert forall|k: int| 0 <= k < ids.len() && names_text(
                streams,
                #[trigger] ids[k],
            ) implies ids[k] == id by {
                kinds_do_not_mix(streams, ids[k]);
            }
        }
    }
    if let Choice::Track(id) = audio {
        if lists_track(session.audio_tracks, id) {
            assert(ids[v.len() as int] == id);
            assert forall|k: int| 0 <= k < ids.len() && names_audio(
                streams,
                #[trigger] ids[k],
            ) implies ids[k] == id by {
                kinds_do_not_mix(streams, ids[k]);
            }
        }
    }
}

/// An automatic choice keeps what is selected already, and asking for it anew goes back
/// to the default of its kind; without a collection nothing is selected.
pub proof fn automatic_choices_keep_or_return(session: Session, id: Seq<char>)
    requires
        session.collection is Some,
        told_apart(session.collection->0),
        names_text(session.collection->0, id),
        session.selected == seq![id],
    ensures
        session.subtitle_choice == Choice::Automatic ==> session.selection(None, None).contains(id),
        default_of(session.collection->0, StreamKind::Text) matches Some(other)
            ==> session.selection(None, Some(Choice::Automatic)).contains(other),
        default_of(session.collection->0, StreamKind::Audio) matches Some(other)
            ==> session.selection(Some(Choice::Automatic), None).contains(other),
        (Session { collection: None, ..session }).selection(None, None).len() == 0,
{
    let streams = session.collection->0;
    let i = choose|i: int|
        0 <= i < streams.len() && (#[trigger] streams[i]).text && streams[i].id is Some
            && streams[i].id->0@ == id;
    stream_at_bounds(streams, id);
    let found = stream_at(streams, id);
    assert(streams[i].id_text() == Some(id));
    if found < i {
        assert(streams[found].id->0@ != streams[i].id->0@);
    }
    assert(id_has_kind(streams, session.selected[0], StreamKind::Text));
    assert(selected_of(streams, session.selected, StreamKind::Text) == Some(id));
    let kept = session.selection(None, None);
    let text = session.selection(None, Some(Choice::Automatic));
    let audio = session.selection(Some(Choice::Automatic), None);
    if session.subtitle_choice == Choice::Automatic {
        assert(kept[kept.len() - 1] == id);
    }
    if let Some(other) = default_of(streams, StreamKind::Text) {
        assert(text[text.len() - 1] == other);
    }
    if let Some(other) = default_of(streams, StreamKind::Audio) {
        let v = as_list(session.active_or_default(StreamKind::Video));
        assert(audio[v.len() as int] == other);
    }
}

/// A seek counts as running for a second and a half, and what was asked for since then
/// is where playback is headed; later it is lost, and a new one goes out at once.
pub proof fn seeks_settle_in_time(
    state: SeekState,
    issued: SeekRequest,
    at: u64,
    request: SeekRequest,
    now: u64,
)
    requires
        state.in_flight == Some((issued, at)),
    ensures
        now < at + 1500 ==> state.running_at(now) == Some(issued) && state.requested(
            request,
            now,
        ).queued == Some(request) && state.requested(request, now).in_flight == state.in_flight,
        now >= at + 1500 ==> state.running_at(now) is None && state.requested(
            request,
            now,
        ).in_flight is None && state.requested(request, now).queued is None,
        state.queued is Some ==> state.pending_at(now) == state.queued,
        state.queued is None && now < at + 1500 ==> state.pending_at(now) == Some(issued),
        state.queued is None && now >= at + 1500 ==> state.pending_at(now) is None,
{
}

/// Without a seek on its way a request goes out at once, and playback keeps its rate.
pub proof fn idle_seeks_go_out(session: Session, request: SeekRequest, now: u64)
    requires
        session.seek.in_flight is None,
        session.seek.queued is None,
    ensures
        session.seek.running_at(now) is None,
        session.seek.pending_at(now) is None,
        session.requested_rate(now) == session.rate,
        session.seek.requested(request, now).in_flight is None,
        session.seek.requested(request, now).queued is None,
{
}

/// The rate that counts is the one asked for last, while its seek is still on its way.
pub proof fn the_newest_rate_counts(session: Session, issued: SeekRequest, waiting: SeekRequest, now: u64)
    ensures
        (Session {
            seek: SeekState { in_flight: Some((issued, now)), queued: None },
            ..session
        }).requested_rate(now) == issued.rate,
        (Session {
            seek: SeekState { in_flight: Some((issued, now)), queued: Some(waiting) },
            ..session
        }).requested_rate(now) == waiting.rate,
{
}

/// A video starts with nothing of the one before it: not playing yet, at the normal rate,
/// without a pending seek, streams or choices, and with subtitles as the default has it.
/// It is a session of its own.
pub proof fn videos_start_afresh(
    session: Session,
    path: Seq<u8>,
    external: Option<Seq<u8>>,
    subtitles_on: bool,
)
    ensures
        ({
            let after = session.started(path, external, subtitles_on);
            &&& after.video == Some(path)
            &&& after.external == external
            &&& after.generation != session.generation
            &&& after.generation == session.generation + 1 || (session.generation == u64::MAX
                && after.generation == 0)
            &&& !after.playing && !after.error_pending
            &&& after.rate == 100
            &&& after.duration is None && after.resume is None && after.collection is None
            &&& after.seek.in_flight is None && after.seek.queued is None
            &&& after.selected.len() == 0 && after.audio_tracks.len() == 0
                && after.subtitle_tracks.len() == 0
            &&& after.audio_choice == Choice::Automatic && after.last_visible == Choice::Automatic
            &&& subtitles_on ==> after.subtitle_choice == Choice::Automatic
            &&& !subtitles_on ==> after.subtitle_choice == Choice::Off
        }),
{
}

/// A rebuild keeps the video, its session, the audio choice and whether it plays, but
/// forgets streams and timing; the attached file is the given one, and its track is
/// picked automatically.
pub proof fn rebuilds_keep_the_video(
    session: Session,
    position: i64,
    rate: u32,
    play: bool,
    external: Option<Seq<u8>>,
)
    ensures
        ({
            let after = session.rebuilt(position, rate, play, external);
            &&& after.video == session.video
            &&& after.generation == session.generation
            &&& after.playing == session.playing
            &&& after.error_pending == session.error_pending
            &&& after.audio_choice == session.audio_choice
            &&& after.external == external
            &&& after.subtitle_choice == Choice::Automatic && after.last_visible
                == Choice::Automatic
            &&& after.collection is None && after.selected.len() == 0 && after.audio_tracks.len()
                == 0 && after.subtitle_tracks.len() == 0
            &&& after.rate == 100 && after.duration is None && after.seek.in_flight is None
                && after.seek.queued is None
            &&& after.resume matches Some(state) && state.position == position && state.rate == rate
                && state.play_after_seek == play
        }),
{
}

/// Toggling turns visible subtitles off, whatever was chosen, and brings back what was
/// last visible as far as it is still there.
pub proof fn toggling_goes_off_and_back(session: Session)
    ensures
        session.subtitle_choice != Choice::Off ==> session.toggled() == Choice::Off,
        session.subtitle_choice == Choice::Off ==> session.toggled() != Choice::Off,
        session.subtitle_choice == Choice::Off && session.last_visible == Choice::Automatic
            ==> session.toggled() == Choice::Automatic,
        session.last_visible matches Choice::Track(id) ==> (session.subtitle_choice == Choice::Off
            && lists_track(session.subtitle_tracks, id) ==> session.toggled()
            == session.last_visible),
        session.last_visible matches Choice::Track(id) ==> (session.subtitle_choice == Choice::Off
            && !lists_track(session.subtitle_tracks, id) ==> session.toggled()
            == Choice::Automatic),
{
}

/// A subtitle choice takes effect and is remembered while it is visible; turning
/// subtitles off forgets nothing.
pub proof fn visible_choices_are_remembered(session: Session, choice: Choice)
    ensures
        session.with_subtitle_choice(choice).subtitle_choice == choice,
        choice != Choice::Off ==> session.with_subtitle_choice(choice).last_visible == choice,
        choice == Choice::Off ==> session.with_subtitle_choice(choice).last_visible
            == session.last_visible,
        session.with_subtitle_choice(choice) == (Session {
            subtitle_choice: choice,
            last_visible: session.with_subtitle_choice(choice).last_visible,
            ..session
        }),
{
}

/// Cycling from an automatic choice goes on from the track that is selected: to the one
/// after it, and from the last one to none. Where no track is selected it turns off.
pub proof fn cycling_goes_on_from_what_shows(session: Session, at: int)
    requires
        session.subtitle_choice == Choice::Automatic,
        0 <= at < session.subtitle_tracks.len(),
        forall|i: int, j: int|
            0 <= i < j < session.subtitle_tracks.len() ==> (#[trigger] session.subtitle_tracks[i]).id
                != (#[trigger] session.subtitle_tracks[j]).id,
    ensures
        session.selected_id(StreamKind::Text) == Some(session.subtitle_tracks[at].id) && at + 1
            < session.subtitle_tracks.len() ==> session.cycled() == Choice::Track(
            session.subtitle_tracks[at + 1].id,
        ),
        session.selected_id(StreamKind::Text) == Some(session.subtitle_tracks[at].id) && at + 1
            == session.subtitle_tracks.len() ==> session.cycled() == Choice::Off,
        session.selected_id(StreamKind::Text) is None ==> session.cycled() == Choice::Off,
{
    let id = session.subtitle_tracks[at].id;
    track_at_bounds(session.subtitle_tracks, id);
    let found = track_at(session.subtitle_tracks, id);
    if found < at {
        assert(session.subtitle_tracks[found].id != session.subtitle_tracks[at].id);
    } else if at < found {
        assert(session.subtitle_tracks[at].id != id);
    }
}

/// New streams keep every choice that still makes sense: automatic and off stay, a track
/// stays while it is listed, and a track that is gone becomes automatic.
pub proof fn new_streams_keep_choices(session: Session, streams: Seq<StreamInfo>)
    ensures
        ({
            let after = session.with_collection(streams);
            &&& after.collection == Some(streams)
            &&& session.subtitle_choice == Choice::Off ==> after.subtitle_choice == Choice::Off
            &&& session.subtitle_choice == Choice::Automatic ==> after.subtitle_choice
                == Choice::Automatic
            &&& session.subtitle_choice matches Choice::Track(id) ==> after.subtitle_choice == (if lists_track(
                after.subtitle_tracks,
                id,
            ) {
                session.subtitle_choice
            } else {
                Choice::Automatic
            })
            &&& session.audio_choice == Choice::Automatic ==> after.audio_choice
                == Choice::Automatic
            &&& session.audio_choice matches Choice::Track(id) ==> after.audio_choice == (if lists_track(
                after.audio_tracks,
                id,
            ) {
                session.audio_choice
            } else {
                Choice::Automatic
            })
            &&& after.video == session.video && after.playing == session.playing && after.rate
                == session.rate && after.seek == session.seek && after.external
                == session.external && after.generation == session.generation
        }),
{
}

/// The label that is shown for a kind is that of the track whose stream is selected.
pub proof fn active_labels_are_of_what_is_selected(session: Session, at: int)
    requires
        0 <= at < session.subtitle_tracks.len(),
        forall|i: int|
            0 <= i < at ==> (#[trigger] session.subtitle_tracks[i]).id
                != session.subtitle_tracks[at].id,
    ensures
        session.selected_id(StreamKind::Text) == Some(session.subtitle_tracks[at].id)
            ==> session.label_of(session.subtitle_tracks, StreamKind::Text) == Some(
            session.subtitle_tracks[at].label,
        ),
        session.selected_id(StreamKind::Text) is None ==> session.label_of(
            session.subtitle_tracks,
            StreamKind::Text,
        ) is None,
{
    let id = session.subtitle_tracks[at].id;
    track_at_bounds(session.subtitle_tracks, id);
    if at < track_at(session.subtitle_tracks, id) {
        assert(session.subtitle_tracks[at].id != id);
    }
}

/// What is selected of a kind is among the selected ids and of that kind; nothing is
/// where none of them is.
pub proof fn selected_ids_are_of_their_kind(session: Session, streams: Seq<StreamInfo>)
    requires
        session.collection == Some(streams),
        told_apart(streams),
    ensures
        session.selected_id(StreamKind::Text) matches Some(id) ==> session.selected.contains(id)
            && names_text(streams, id),
        session.selected_id(StreamKind::Audio) matches Some(id) ==> session.selected.contains(id)
            && names_audio(streams, id),
        session.selected_id(StreamKind::Video) matches Some(id) ==> session.selected.contains(id)
            && names_video(streams, id),
        session.selected_id(StreamKind::Text) is None ==> forall|k: int|
            0 <= k < session.selected.len() ==> !names_text(streams, #[trigger] session.selected[k]),
        session.selected_id(StreamKind::Audio) is None ==> forall|k: int|
            0 <= k < session.selected.len() ==> !names_audio(streams, #[trigger] session.selected[k]),
        session.selected_id(StreamKind::Video) is None ==> forall|k: int|
            0 <= k < session.selected.len() ==> !names_video(streams, #[trigger] session.selected[k]),
{
    selected_of_is_selected(streams, session.selected, StreamKind::Text);
    selected_of_is_selected(streams, session.selected, StreamKind::Audio);
    selected_of_is_selected(streams, session.selected, StreamKind::Video);
    assert forall|id: Seq<char>| #[trigger] names_text(streams, id) <==> id_has_kind(
        streams,
        id,
        StreamKind::Text,
    ) by {
        kind_of_id(streams, id);
    }
    assert forall|id: Seq<char>| #[trigger] names_audio(streams, id) <==> id_has_kind(
        streams,
        id,
        StreamKind::Audio,
    ) by {
        kind_of_id(streams, id);
    }
    assert forall|id: Seq<char>| #[trigger] names_video(streams, id) <==> id_has_kind(
        streams,
        id,
        StreamKind::Video,
    ) by {
        kind_of_id(streams, id);
    }
}

proof fn kind_of_id(streams: Seq<StreamInfo>, id: Seq<char>)
    requires
        told_apart(streams),
    ensures
        names_text(streams, id) <==> id_has_kind(streams, id, StreamKind::Text),
        names_audio(streams, id) <==> id_has_kind(streams, id, StreamKind::Audio),
        names_video(streams, id) <==> id_has_kind(streams, id, StreamKind::Video),
{
    stream_at_bounds(streams, id);
    let found = stream_at(streams, id);
    assert forall|i: int|
        0 <= i < streams.len() && (#[trigger] streams[i]).id is Some && streams[i].id->0@
            == id implies i == found by {
        assert(streams[i].id_text() == Some(id));
        if found < i {
            assert(streams[found].id->0@ != streams[i].id->0@);
        }
    }
    if found < streams.len() {
        assert(streams[found].id is Some && streams[found].id->0@ == id);
    }
}

/// An error belongs to a session of the same count with the same subtitle file.
pub proof fn errors_belong_to_their_session(context: ErrorContext, session: Session)
    ensures
        context.generation() == session.generation && context.external() == session.external
            ==> context.is_of(session),
        context.is_of(session) ==> context.generation() == session.generation && (
        context.external() is Some <==> session.external is Some),
{
}

/// A snapshot shows every track in its place, the choice as it stands, and the label of
/// what plays.
pub proof fn snapshots_show_the_session(
    audio: AudioSnapshot,
    subtitles: SubtitleSnapshot,
    session: Session,
    at: int,
)
    ensures
        shows_audio(audio, session) ==> {
            &&& audio.tracks@.len() == session.audio_tracks.len()
            &&& 0 <= at < session.audio_tracks.len() ==> audio.tracks@[at].id@
                == session.audio_tracks[at].id && audio.tracks@[at].label@
                == session.audio_tracks[at].label
            &&& audio.choice@ == session.audio_choice
            &&& audio.active_label is Some <==> session.label_of(
                session.audio_tracks,
                StreamKind::Audio,
            ) is Some
            &&& audio.active_label matches Some(label) ==> Some(label@) == session.label_of(
                session.audio_tracks,
                StreamKind::Audio,
            )
        },
        shows_subtitles(subtitles, session) ==> {
            &&& subtitles.tracks@.len() == session.subtitle_tracks.len()
            &&& 0 <= at < session.subtitle_tracks.len() ==> subtitles.tracks@[at].id@
                == session.subtitle_tracks[at].id && subtitles.tracks@[at].label@
                == session.subtitle_tracks[at].label
            &&& subtitles.choice@ == session.subtitle_choice
            &&& subtitles.active_label is Some <==> session.label_of(
                session.subtitle_tracks,
                StreamKind::Text,
            ) is Some
            &&& subtitles.active_label matches Some(label) ==> Some(label@) == session.label_of(
                session.subtitle_tracks,
                StreamKind::Text,
            )
        },
{
    if shows_audio(audio, session) && 0 <= at < session.audio_tracks.len() {
        assert(audio_views(audio.tracks@)[at] == audio.tracks@[at]@);
    }
    if shows_subtitles(subtitles, session) && 0 <= at < session.subtitle_tracks.len() {
        assert(subtitle_views(subtitles.tracks@)[at] == subtitles.tracks@[at]@);
    }
}

/// What a refused change of speed says.
pub proof fn rate_failures_are_told()
    ensures
        PlaybackRateError::PitchFilterUnavailable.text()
            == "playback speed requires the GStreamer scaletempo plugin"@,
        PlaybackRateError::PositionUnavailable.text() == "playback speed is not ready yet"@,
        PlaybackRateError::SeekRefused.text() == "this video cannot change playback speed"@,
{
}

}
