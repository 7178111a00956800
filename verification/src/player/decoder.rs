//! Decoder preference, malformed H.264 fallback, and missing-decoder diagnostics.
use vstd::prelude::*;

use crate::text::{decimal_digits, has_prefix, push_decimal, same_text, starts_with};

verus! {

/// The rank of a factory that is never chosen.
pub const RANK_NONE: i32 = 0;

/// The rank of the software decoders.
pub const RANK_PRIMARY: i32 = 256;

/// What the encoded caps of a stream say of one alternative.
#[derive(Debug)]
pub struct CapsStructure {
    /// The media type.
    pub name: String,
    pub profile: Option<String>,
    pub level: Option<String>,
    pub width: Option<i32>,
    pub height: Option<i32>,
    /// Numerator and denominator of the frame rate.
    pub framerate: Option<(i32, i32)>,
}

/// H.264 Annex A `MaxFS` in macroblocks.
pub open spec fn max_frame_mbs(level: Seq<char>) -> Option<u64> {
    if level == "1"@ || level == "1b"@ {
        Some(99)
    } else if level == "1.1"@ || level == "1.2"@ || level == "1.3"@ || level == "2"@ {
        Some(396)
    } else if level == "2.1"@ {
        Some(792)
    } else if level == "2.2"@ || level == "3"@ {
        Some(1_620)
    } else if level == "3.1"@ {
        Some(3_600)
    } else if level == "3.2"@ {
        Some(5_120)
    } else if level == "4"@ || level == "4.1"@ {
        Some(8_192)
    } else if level == "4.2"@ {
        Some(8_704)
    } else if level == "5"@ {
        Some(22_080)
    } else if level == "5.1"@ || level == "5.2"@ {
        Some(36_864)
    } else if level == "6"@ || level == "6.1"@ || level == "6.2"@ {
        Some(139_264)
    } else {
        None
    }
}

pub fn h264_level_max_frame_mbs(level: &str) -> (result: Option<u64>)
    ensures
        result == max_frame_mbs(level@),
{
    if same_text(level, "1") || same_text(level, "1b") {
        Some(99)
    } else if same_text(level, "1.1") || same_text(level, "1.2") || same_text(level, "1.3")
        || same_text(level, "2") {
        Some(396)
    } else if same_text(level, "2.1") {
        Some(792)
    } else if same_text(level, "2.2") || same_text(level, "3") {
        Some(1_620)
    } else if same_text(level, "3.1") {
        Some(3_600)
    } else if same_text(level, "3.2") {
        Some(5_120)
    } else if same_text(level, "4") || same_text(level, "4.1") {
        Some(8_192)
    } else if same_text(level, "4.2") {
        Some(8_704)
    } else if same_text(level, "5") {
        Some(22_080)
    } else if same_text(level, "5.1") || same_text(level, "5.2") {
        Some(36_864)
    } else if same_text(level, "6") || same_text(level, "6.1") || same_text(level, "6.2") {
        Some(139_264)
    } else {
        None
    }
}

/// How many macroblocks cover a length in pixels.
pub open spec fn blocks(length: int) -> int {
    (length + 15) / 16
}

/// Whether one alternative declares a level too low for its frame size.
pub open spec fn exceeds_level(caps: CapsStructure) -> bool {
    match (caps.level, caps.width, caps.height) {
        (Some(level), Some(width), Some(height)) => match max_frame_mbs(level@) {
            Some(limit) => width > 0 && height > 0 && blocks(width as int) * blocks(height as int)
                > limit,
            None => false,
        },
        _ => false,
    }
}

/// The position of the first H.264 alternative, or their number.
pub open spec fn first_h264(caps: Seq<CapsStructure>) -> int
    decreases caps.len(),
{
    if caps.len() == 0 || caps[0].name@ == "video/x-h264"@ {
        0
    } else {
        1 + first_h264(caps.skip(1))
    }
}

/// Whether the coded frame exceeds the size limit that the stream itself declares.
pub open spec fn contradicts_level(caps: Seq<CapsStructure>) -> bool {
    first_h264(caps) < caps.len() && exceeds_level(caps[first_h264(caps)])
}

/// True when the coded frame exceeds the size limit that the stream itself
/// declares. Unknown levels stay on the normal hardware path; this guard only
/// acts on a demonstrable contradiction.
pub fn h264_exceeds_declared_level(caps: &Vec<CapsStructure>) -> (result: bool)
    ensures
        result == contradicts_level(caps@),
{
    assert(caps@.skip(0) =~= caps@);
    for i in 0..caps.len()
        invariant
            first_h264(caps@) == i + first_h264(caps@.skip(i as int)),
    {
        assert(caps@.skip(i as int)[0] == caps@[i as int]);
        if same_text(caps[i].name.as_str(), "video/x-h264") {
            return structure_exceeds_level(&caps[i]);
        }
        assert(caps@.skip(i as int).skip(1) =~= caps@.skip(i + 1));
    }
    false
}

fn structure_exceeds_level(caps: &CapsStructure) -> (result: bool)
    ensures
        result == exceeds_level(*caps),
{
    match (&caps.level, caps.width, caps.height) {
        (Some(level), Some(width), Some(height)) => match h264_level_max_frame_mbs(level.as_str()) {
            Some(limit) => {
                if width <= 0 || height <= 0 {
                    return false;
                }
                let across: u64 = (width as u64 + 15) / 16;
                let down: u64 = (height as u64 + 15) / 16;
                assert(across * down <= 0x0800_0000 * 0x0800_0000) by (nonlinear_arith)
                    requires
                        across <= 0x0800_0000,
                        down <= 0x0800_0000,
                ;
                across * down > limit
            },
            None => false,
        },
        _ => false,
    }
}

pub open spec fn signed_digits(number: i32) -> Seq<char> {
    if number < 0 {
        "-"@ + decimal_digits((-number) as nat)
    } else {
        decimal_digits(number as nat)
    }
}

fn push_signed(text: &mut String, number: i32)
    ensures
        final(text)@ == old(text)@ + signed_digits(number),
{
    if number < 0 {
        text.append("-");
        push_decimal(text, (-(number as i64)) as u64);
        assert(text@ =~= old(text)@ + signed_digits(number));
    } else {
        push_decimal(text, number as u64);
    }
}

pub open spec fn field_text(name: Seq<char>, value: Option<String>) -> Seq<char> {
    match value {
        Some(text) => " "@ + name + "="@ + text@,
        None => Seq::empty(),
    }
}

/// The facts of an alternative that explain a decoder choice.
pub open spec fn summary(caps: CapsStructure) -> Seq<char> {
    caps.name@ + field_text("profile"@, caps.profile) + field_text("level"@, caps.level) + match (
        caps.width,
        caps.height,
    ) {
        (Some(width), Some(height)) => " "@ + signed_digits(width) + "x"@ + signed_digits(height),
        _ => Seq::empty(),
    } + match caps.framerate {
        Some((above, below)) => " "@ + signed_digits(above) + "/"@ + signed_digits(below)
            + " fps"@,
        None => Seq::empty(),
    }
}

fn push_field(text: &mut String, name: &str, value: &Option<String>)
    ensures
        final(text)@ == old(text)@ + field_text(name@, *value),
{
    match value {
        Some(content) => {
            text.append(" ");
            text.append(name);
            text.append("=");
            text.append(content.as_str());
            assert(text@ =~= old(text)@ + field_text(name@, *value));
        },
        None => {
            assert(text@ =~= old(text)@ + field_text(name@, *value));
        },
    }
}

/// Compact encoded-stream facts for diagnostics.
pub fn video_stream_summary(caps: &Vec<CapsStructure>) -> (result: Option<String>)
    ensures
        match result {
            Some(text) => caps@.len() > 0 && text@ == summary(caps@[0]),
            None => caps@.len() == 0,
        },
{
    if caps.len() == 0 {
        return None;
    }
    let structure = &caps[0];
    let mut text = structure.name.clone();
    push_field(&mut text, "profile", &structure.profile);
    push_field(&mut text, "level", &structure.level);
    let ghost named = text@;
    match (structure.width, structure.height) {
        (Some(width), Some(height)) => {
            text.append(" ");
            push_signed(&mut text, width);
            text.append("x");
            push_signed(&mut text, height);
            assert(text@ =~= named + (" "@ + signed_digits(width) + "x"@ + signed_digits(height)));
        },
        _ => {
            assert(text@ =~= named + Seq::empty());
        },
    }
    let ghost sized = text@;
    match structure.framerate {
        Some((above, below)) => {
            text.append(" ");
            push_signed(&mut text, above);
            text.append("/");
            push_signed(&mut text, below);
            text.append(" fps");
            assert(text@ =~= sized + (" "@ + signed_digits(above) + "/"@ + signed_digits(below)
                + " fps"@));
        },
        None => {
            assert(text@ =~= sized + Seq::empty());
        },
    }
    Some(text)
}

/// The hardware decoders that are preferred, in the order in which they are ranked.
pub open spec fn intel_decoders() -> Seq<Seq<char>> {
    seq!["qsvh264dec"@, "qsvh265dec"@, "qsvvp9dec"@, "qsvjpegdec"@]
}

/// Hardware decoders to prefer for the streams that their caps accept. Other
/// installed decoders stay the automatic fallback.
pub fn intel_video_decoders() -> (result: Vec<&'static str>)
    ensures
        crate::config::words(result@) == intel_decoders(),
{
    let list = vec!["qsvh264dec", "qsvh265dec", "qsvvp9dec", "qsvjpegdec"];
    assert(crate::config::words(list@) =~= intel_decoders());
    list
}

/// The rank to give a preferred decoder, or none where it keeps its own.
pub open spec fn preferred_rank(current: i32) -> Option<i32> {
    if current != RANK_NONE && current < RANK_PRIMARY + 2 {
        Some((RANK_PRIMARY + 2) as i32)
    } else {
        None
    }
}

/// The rank that a preferred decoder ends up with.
pub open spec fn rank_after(current: i32) -> i32 {
    match preferred_rank(current) {
        Some(rank) => rank,
        None => current,
    }
}

/// The rank to give a preferred decoder, above the standard hardware and software
/// decoders. `None` preserves an explicit disable, or a choice already ranked
/// above it.
pub fn preferred_hardware_rank(current: i32) -> (result: Option<i32>)
    ensures
        result == preferred_rank(current),
{
    if current != RANK_NONE && current < RANK_PRIMARY + 2 {
        Some(RANK_PRIMARY + 2)
    } else {
        None
    }
}

/// A preferred decoder never ends up below the rank that it had, and unless it is
/// disabled it ends up above the standard ones; a disabled one stays disabled, and
/// preferring twice changes nothing more.
pub proof fn preference_is_settled(current: i32)
    ensures
        rank_after(current) >= current,
        current != RANK_NONE ==> rank_after(current) > RANK_PRIMARY + 1,
        current == RANK_NONE ==> rank_after(current) == RANK_NONE,
        rank_after(rank_after(current)) == rank_after(current),
{
}

/// Takes the hardware H.264 decoder out of the running for one malformed stream,
/// and gives it its rank back.
///
/// The stream collection is seen before a decoder is chosen. Lowering the rank
/// here ensures that the list of candidates is built without the hardware
/// decoder for only this stream.
pub struct DecoderFallback {
    disabled_rank: Option<i32>,
}

impl DecoderFallback {
    /// The rank to give back, while the decoder is disabled.
    pub closed spec fn held(self) -> Option<i32> {
        self.disabled_rank
    }

    pub fn new() -> (result: Self)
        ensures
            result.held() is None,
    {
        DecoderFallback { disabled_rank: None }
    }

    /// Whether to disable the hardware decoder for a stream, given the ranks of
    /// the software and of the hardware decoder where they are installed. Returns
    /// the name of the decoder that takes over; the caller then sets the hardware
    /// decoder's rank to none.
    pub fn bypass_qsv_h264(
        &mut self,
        caps: &Vec<CapsStructure>,
        software_rank: Option<i32>,
        hardware_rank: Option<i32>,
    ) -> (result: Option<&'static str>)
        ensures
            match result {
                Some(name) => {
                    &&& name@ == "avdec_h264"@
                    &&& old(self).held() is None
                    &&& contradicts_level(caps@)
                    &&& software_rank matches Some(rank) && rank != RANK_NONE
                    &&& hardware_rank matches Some(rank) && rank != RANK_NONE
                    &&& final(self).held() == hardware_rank
                },
                None => final(self).held() == old(self).held() && (old(self).held() is Some
                    || !contradicts_level(caps@) || !(software_rank matches Some(rank) && rank
                    != RANK_NONE) || !(hardware_rank matches Some(rank) && rank != RANK_NONE)),
            },
    {
        if self.disabled_rank.is_some() || !h264_exceeds_declared_level(caps) {
            return None;
        }
        match (software_rank, hardware_rank) {
            (Some(software), Some(hardware)) => if software != RANK_NONE && hardware != RANK_NONE {
                self.disabled_rank = Some(hardware);
                Some("avdec_h264")
            } else {
                None
            },
            _ => None,
        }
    }

    /// Ends a bypass. Returns the rank to give back to the hardware decoder.
    pub fn restore(&mut self) -> (result: Option<i32>)
        ensures
            result == old(self).held(),
            final(self).held() is None,
    {
        self.disabled_rank.take()
    }
}

impl Default for DecoderFallback {
    fn default() -> (result: Self)
        ensures
            result.held() is None,
    {
        DecoderFallback::new()
    }
}

/// A message about something that is missing in the pipeline.
#[derive(Debug)]
pub struct MissingMessage {
    /// The name of the message.
    pub name: String,
    /// What kind of thing is missing.
    pub kind: Option<String>,
    /// The media types that it would have handled, where they are told.
    pub media_types: Option<Vec<String>>,
    /// These types as one text.
    pub detail: String,
    /// What the missing thing is called.
    pub description: Option<String>,
}

pub open spec fn is_video_type(media_type: Seq<char>) -> bool {
    starts_with(media_type, "video/"@)
}

pub open spec fn is_subtitle_type(media_type: Seq<char>) -> bool {
    ||| starts_with(media_type, "text/"@)
    ||| starts_with(media_type, "subpicture/"@)
    ||| starts_with(media_type, "closedcaption/"@)
    ||| starts_with(media_type, "application/x-subtitle"@)
}

pub open spec fn concerns_video(types: Seq<String>) -> bool {
    exists|i: int| 0 <= i < types.len() && is_video_type((#[trigger] types[i])@)
}

pub open spec fn concerns_subtitles(types: Seq<String>) -> bool {
    exists|i: int| 0 <= i < types.len() && is_subtitle_type((#[trigger] types[i])@)
}

/// Whether a message says that a decoder is missing.
pub open spec fn is_missing_decoder(message: MissingMessage) -> bool {
    message.name@ == "missing-plugin"@ && (message.kind matches Some(kind) && kind@ == "decoder"@)
}

/// What a missing decoder is called: its description, or the media types.
pub open spec fn missing_name(message: MissingMessage) -> Seq<char> {
    match message.description {
        Some(text) => if text@.len() > 0 {
            text@
        } else {
            message.detail@
        },
        None => message.detail@,
    }
}

/// The missing decoder of a picture. A pipeline can play on with the sound of a
/// file whose picture has no decoder, which is no failure to it; missing sound
/// and subtitle decoders do not make the picture unusable.
pub fn missing_video_decoder(message: &MissingMessage) -> (result: Option<String>)
    ensures
        match result {
            Some(name) => is_missing_decoder(*message) && (message.media_types matches Some(types)
                && concerns_video(types@)) && name@ == missing_name(*message),
            None => !is_missing_decoder(*message) || !(message.media_types matches Some(types)
                && concerns_video(types@)),
        },
{
    if !says_missing_decoder(message) {
        return None;
    }
    match &message.media_types {
        Some(types) => {
            for i in 0..types.len()
                invariant
                    is_missing_decoder(*message),
                    message.media_types == Some(*types),
                    forall|j: int| 0 <= j < i ==> !is_video_type((#[trigger] types@[j])@),
            {
                if has_prefix(types[i].as_str(), "video/") {
                    assert(is_video_type(types@[i as int]@));
                    return Some(name_missing(message));
                }
            }
            None
        },
        None => None,
    }
}

/// The missing decoder of subtitles.
pub fn missing_subtitle_decoder(message: &MissingMessage) -> (result: Option<String>)
    ensures
        match result {
            Some(name) => is_missing_decoder(*message) && (message.media_types matches Some(types)
                && concerns_subtitles(types@)) && name@ == missing_name(*message),
            None => !is_missing_decoder(*message) || !(message.media_types matches Some(types)
                && concerns_subtitles(types@)),
        },
{
    if !says_missing_decoder(message) {
        return None;
    }
    match &message.media_types {
        Some(types) => {
            for i in 0..types.len()
                invariant
                    is_missing_decoder(*message),
                    message.media_types == Some(*types),
                    forall|j: int| 0 <= j < i ==> !is_subtitle_type((#[trigger] types@[j])@),
            {
                let media_type = types[i].as_str();
                if has_prefix(media_type, "text/") || has_prefix(media_type, "subpicture/")
                    || has_prefix(media_type, "closedcaption/") || has_prefix(
                    media_type,
                    "application/x-subtitle",
                ) {
                    assert(is_subtitle_type(types@[i as int]@));
                    return Some(name_missing(message));
                }
            }
            None
        },
        None => None,
    }
}

fn says_missing_decoder(message: &MissingMessage) -> (result: bool)
    ensures
        result == is_missing_decoder(*message),
{
    if !same_text(message.name.as_str(), "missing-plugin") {
        return false;
    }
    match &message.kind {
        Some(kind) => same_text(kind.as_str(), "decoder"),
        None => false,
    }
}

fn name_missing(message: &MissingMessage) -> (result: String)
    ensures
        result@ == missing_name(*message),
{
    match &message.description {
        Some(text) => if text.as_str().is_empty() {
            message.detail.clone()
        } else {
            text.clone()
        },
        None => message.detail.clone(),
    }
}

/// How many macroblocks a frame may hold at each level.
pub proof fn levels_limit_the_frame()
    ensures
        max_frame_mbs("1"@) == Some(99u64),
        max_frame_mbs("1b"@) == Some(99u64),
        max_frame_mbs("1.1"@) == Some(396u64),
        max_frame_mbs("1.2"@) == Some(396u64),
        max_frame_mbs("1.3"@) == Some(396u64),
        max_frame_mbs("2"@) == Some(396u64),
        max_frame_mbs("2.1"@) == Some(792u64),
        max_frame_mbs("2.2"@) == Some(1_620u64),
        max_frame_mbs("3"@) == Some(1_620u64),
        max_frame_mbs("3.1"@) == Some(3_600u64),
        max_frame_mbs("3.2"@) == Some(5_120u64),
        max_frame_mbs("4"@) == Some(8_192u64),
        max_frame_mbs("4.1"@) == Some(8_192u64),
        max_frame_mbs("4.2"@) == Some(8_704u64),
        max_frame_mbs("5"@) == Some(22_080u64),
        max_frame_mbs("5.1"@) == Some(36_864u64),
        max_frame_mbs("5.2"@) == Some(36_864u64),
        max_frame_mbs("6"@) == Some(139_264u64),
        max_frame_mbs("6.1"@) == Some(139_264u64),
        max_frame_mbs("6.2"@) == Some(139_264u64),
{
    reveal_strlit("1");
    reveal_strlit("1b");
    reveal_strlit("1.1");
    reveal_strlit("1.2");
    reveal_strlit("1.3");
    reveal_strlit("2");
    reveal_strlit("2.1");
    reveal_strlit("2.2");
    reveal_strlit("3");
    reveal_strlit("3.1");
    reveal_strlit("3.2");
    reveal_strlit("4");
    reveal_strlit("4.1");
    reveal_strlit("4.2");
    reveal_strlit("5");
    reveal_strlit("5.1");
    reveal_strlit("5.2");
    reveal_strlit("6");
    reveal_strlit("6.1");
    reveal_strlit("6.2");
    assert("1"@[0] == '1' && "2"@[0] == '2' && "3"@[0] == '3' && "4"@[0] == '4' && "5"@[0] == '5'
        && "6"@[0] == '6');
    assert("1b"@.len() == 2 && "1b"@[0] == '1');
    assert("1.1"@.len() == 3 && "1.1"@[0] == '1' && "1.1"@[2] == '1');
    assert("1.2"@.len() == 3 && "1.2"@[0] == '1' && "1.2"@[2] == '2');
    assert("1.3"@.len() == 3 && "1.3"@[0] == '1' && "1.3"@[2] == '3');
    assert("2.1"@.len() == 3 && "2.1"@[0] == '2' && "2.1"@[2] == '1');
    assert("2.2"@.len() == 3 && "2.2"@[0] == '2' && "2.2"@[2] == '2');
    assert("3.1"@.len() == 3 && "3.1"@[0] == '3' && "3.1"@[2] == '1');
    assert("3.2"@.len() == 3 && "3.2"@[0] == '3' && "3.2"@[2] == '2');
    assert("4.1"@.len() == 3 && "4.1"@[0] == '4' && "4.1"@[2] == '1');
    assert("4.2"@.len() == 3 && "4.2"@[0] == '4' && "4.2"@[2] == '2');
    assert("5.1"@.len() == 3 && "5.1"@[0] == '5' && "5.1"@[2] == '1');
    assert("5.2"@.len() == 3 && "5.2"@[0] == '5' && "5.2"@[2] == '2');
    assert("6.1"@.len() == 3 && "6.1"@[0] == '6' && "6.1"@[2] == '1');
    assert("6.2"@.len() == 3 && "6.2"@[0] == '6' && "6.2"@[2] == '2');
}

/// Blocks of sixteen pixels cover a length, and none of them is idle.
pub proof fn blocks_cover_the_frame(length: int)
    requires
        length > 0,
    ensures
        16 * blocks(length) >= length,
        16 * (blocks(length) - 1) < length,
{
}

/// A stream contradicts its level where its frame needs more blocks than the level
/// allows. A level that is not known, or a frame that is not told, contradicts nothing.
pub proof fn large_frames_contradict_their_level(
    caps: CapsStructure,
    level: String,
    width: i32,
    height: i32,
)
    requires
        caps.level == Some(level),
        caps.width == Some(width),
        caps.height == Some(height),
        width > 0,
        height > 0,
    ensures
        max_frame_mbs(level@) is None ==> !exceeds_level(caps),
        max_frame_mbs(level@) matches Some(limit) ==> exceeds_level(caps) == (((width + 15) / 16)
            * ((height + 15) / 16) > limit),
{
}

/// What is not told contradicts nothing.
pub proof fn untold_frames_contradict_nothing(caps: CapsStructure)
    ensures
        caps.level is None || caps.width is None || caps.height is None ==> !exceeds_level(caps),
        caps.width is Some && caps.width->0 <= 0 ==> !exceeds_level(caps),
        caps.height is Some && caps.height->0 <= 0 ==> !exceeds_level(caps),
{
}

/// The first H.264 alternative decides, wherever it stands.
pub proof fn the_first_h264_alternative_decides(caps: Seq<CapsStructure>, at: int)
    requires
        0 <= at < caps.len(),
        caps[at].name@ == "video/x-h264"@,
        forall|i: int| 0 <= i < at ==> (#[trigger] caps[i]).name@ != "video/x-h264"@,
    ensures
        first_h264(caps) == at,
        contradicts_level(caps) == exceeds_level(caps[at]),
    decreases at,
{
    if at > 0 {
        let rest = caps.skip(1);
        assert(caps[0].name@ != "video/x-h264"@);
        assert forall|i: int| 0 <= i < at - 1 implies (#[trigger] rest[i]).name@
            != "video/x-h264"@ by {
            assert(rest[i] == caps[i + 1]);
        }
        assert(rest[at - 1] == caps[at]);
        the_first_h264_alternative_decides(rest, at - 1);
    }
}

/// Other formats have no such level to contradict.
pub proof fn other_formats_contradict_nothing(caps: Seq<CapsStructure>)
    requires
        forall|i: int| 0 <= i < caps.len() ==> (#[trigger] caps[i]).name@ != "video/x-h264"@,
    ensures
        !contradicts_level(caps),
        first_h264(caps) == caps.len(),
    decreases caps.len(),
{
    if caps.len() > 0 {
        let rest = caps.skip(1);
        assert(caps[0].name@ != "video/x-h264"@);
        assert forall|i: int| 0 <= i < rest.len() implies (#[trigger] rest[i]).name@
            != "video/x-h264"@ by {
            assert(rest[i] == caps[i + 1]);
        }
        other_formats_contradict_nothing(rest);
    }
}

/// What is told of a stream: its type, then what is known of it, each part only where
/// it is known.
pub proof fn streams_are_summed_up(caps: CapsStructure, width: i32, height: i32, above: i32, below: i32)
    requires
        width >= 0,
        height >= 0,
        above >= 0,
        below >= 0,
    ensures
        caps.profile is None && caps.level is None && caps.width is None && caps.framerate is None
            ==> summary(caps) == caps.name@,
        caps.profile is Some && caps.level is None && caps.width is None && caps.framerate is None
            ==> summary(caps) == caps.name@ + (" "@ + "profile"@ + "="@ + caps.profile->0@),
        caps.profile is None && caps.level is Some && caps.width is None && caps.framerate is None
            ==> summary(caps) == caps.name@ + (" "@ + "level"@ + "="@ + caps.level->0@),
        caps.profile is None && caps.level is None && caps.width == Some(width) && caps.height
            == Some(height) && caps.framerate is None ==> summary(caps) == caps.name@ + (" "@
            + decimal_digits(width as nat) + "x"@ + decimal_digits(height as nat)),
        caps.profile is None && caps.level is None && caps.width is None && caps.framerate == Some(
            (above, below),
        ) ==> summary(caps) == caps.name@ + (" "@ + decimal_digits(above as nat) + "/"@
            + decimal_digits(below as nat) + " fps"@),
{
    let none = Seq::<char>::empty();
    assert(caps.name@ + none =~= caps.name@);
    assert(summary(caps) == caps.name@ + field_text("profile"@, caps.profile) + field_text(
        "level"@,
        caps.level,
    ) + match (caps.width, caps.height) {
        (Some(width), Some(height)) => " "@ + signed_digits(width) + "x"@ + signed_digits(height),
        _ => none,
    } + match caps.framerate {
        Some((above, below)) => " "@ + signed_digits(above) + "/"@ + signed_digits(below)
            + " fps"@,
        None => none,
    });
    if caps.profile is None && caps.level is None && caps.width is None && caps.framerate is None {
        assert(summary(caps) =~= caps.name@);
    }
    if caps.profile is Some && caps.level is None && caps.width is None && caps.framerate is None {
        assert(summary(caps) =~= caps.name@ + (" "@ + "profile"@ + "="@ + caps.profile->0@));
    }
    if caps.profile is None && caps.level is Some && caps.width is None && caps.framerate is None {
        assert(summary(caps) =~= caps.name@ + (" "@ + "level"@ + "="@ + caps.level->0@));
    }
}

/// A number below zero is written with a sign in front.
pub proof fn signs_stand_in_front(number: i32)
    ensures
        number >= 0 ==> signed_digits(number) == decimal_digits(number as nat),
        number < 0 ==> signed_digits(number) == "-"@ + decimal_digits((-number) as nat),
{
}

/// The hardware decoders that are preferred.
pub proof fn intel_decoders_are_preferred()
    ensures
        intel_decoders().len() == 4,
        intel_decoders()[0] == "qsvh264dec"@,
        intel_decoders()[1] == "qsvh265dec"@,
        intel_decoders()[2] == "qsvvp9dec"@,
        intel_decoders()[3] == "qsvjpegdec"@,
{
}

/// A decoder that may be chosen is raised two above the software decoders, unless it
/// stands there or above; one that is switched off stays off.
pub proof fn preferred_decoders_are_raised(current: i32)
    ensures
        current == 0 ==> preferred_rank(current) is None,
        current != 0 && current < 258 ==> preferred_rank(current) == Some(258i32),
        current >= 258 ==> preferred_rank(current) is None,
{
}

/// A missing decoder concerns the picture or the subtitles by its media types.
pub proof fn missing_decoders_concern_their_media(rest: Seq<char>)
    ensures
        is_video_type("video/"@ + rest),
        is_subtitle_type("text/"@ + rest),
        is_subtitle_type("subpicture/"@ + rest),
        is_subtitle_type("closedcaption/"@ + rest),
        is_subtitle_type("application/x-subtitle"@ + rest),
        !is_video_type("audio/"@ + rest),
        !is_subtitle_type("audio/"@ + rest),
        !is_subtitle_type("video/"@ + rest),
        !is_video_type("text/"@ + rest),
{
    reveal_strlit("video/");
    reveal_strlit("audio/");
    reveal_strlit("text/");
    reveal_strlit("subpicture/");
    reveal_strlit("closedcaption/");
    reveal_strlit("application/x-subtitle");
    let video = "video/"@ + rest;
    let audio = "audio/"@ + rest;
    let text = "text/"@ + rest;
    assert(video.take(6) =~= "video/"@);
    assert(text.take(5) =~= "text/"@);
    assert(("subpicture/"@ + rest).take(11) =~= "subpicture/"@);
    assert(("closedcaption/"@ + rest).take(14) =~= "closedcaption/"@);
    assert(("application/x-subtitle"@ + rest).take(22) =~= "application/x-subtitle"@);
    assert(audio[0] == 'a' && audio[1] == 'u');
    assert(video[0] == 'v');
    assert(text[0] == 't');
    assert("video/"@[0] == 'v' && "text/"@[0] == 't' && "subpicture/"@[0] == 's'
        && "closedcaption/"@[0] == 'c' && "application/x-subtitle"@[0] == 'a'
        && "application/x-subtitle"@[1] == 'p');
    assert(forall|s: Seq<char>, n: int|
        0 < n <= s.len() ==> #[trigger] s.take(n)[0] == s[0]);
    if starts_with(audio, "application/x-subtitle"@) {
        assert(audio.take(22)[1] == audio[1]);
    }
}

/// A missing decoder is a missing plugin that decodes; it is called by its
/// description, or by its types where it has none.
pub proof fn missing_decoders_have_names(message: MissingMessage)
    ensures
        is_missing_decoder(message) <==> message.name@ == "missing-plugin"@ && message.kind is Some
            && message.kind->0@ == "decoder"@,
        message.description is Some && message.description->0@.len() > 0 ==> missing_name(message)
            == message.description->0@,
        message.description is None || message.description->0@.len() == 0 ==> missing_name(message)
            == message.detail@,
{
}

}
