//! Audio and subtitle choices as the window sees them, and the matching of
//! subtitle files that lie beside a video.
use vstd::prelude::*;
use vstd::utf8::valid_utf8;

use crate::config::{is_subtitle, lower_extension, lowercase_ext, subtitle_path};
use crate::folder::{lossy, lossy_text};
use crate::natural::{code_points, lexical, lexical_equal, lexical_swapped, lexical_transitive, order_chars};
use crate::paths::{file_stem, file_stem_of, is_plain_name, join, joined, plain_name, same_bytes, DOT};
use crate::text::{
    bytes_spell, chars_of, copy_chars, has_prefix, same_text, spells, starts_with, text_of,
};

verus! {

#[derive(Debug, Clone, PartialEq, Eq)]
pub struct AudioTrack {
    pub id: String,
    pub label: String,
}

#[derive(Debug, Clone, PartialEq, Eq)]
pub enum AudioChoice {
    Automatic,
    Track(String),
}

#[derive(Debug, Clone, PartialEq, Eq)]
pub struct AudioSnapshot {
    pub tracks: Vec<AudioTrack>,
    pub choice: AudioChoice,
    pub active_label: Option<String>,
}

#[derive(Debug, Clone, PartialEq, Eq)]
pub struct SubtitleTrack {
    pub id: String,
    pub label: String,
}

#[derive(Debug, Clone, PartialEq, Eq)]
pub enum SubtitleChoice {
    Automatic,
    Off,
    Track(String),
}

#[derive(Debug, Clone, PartialEq, Eq)]
pub struct SubtitleSnapshot {
    pub tracks: Vec<SubtitleTrack>,
    pub choice: SubtitleChoice,
    pub active_label: Option<String>,
}

/// A track as a value.
#[verifier::ext_equal]
pub struct Track {
    pub id: Seq<char>,
    pub label: Seq<char>,
}

impl View for AudioTrack {
    type V = Track;

    open spec fn view(&self) -> Track {
        Track { id: self.id@, label: self.label@ }
    }
}

impl View for SubtitleTrack {
    type V = Track;

    open spec fn view(&self) -> Track {
        Track { id: self.id@, label: self.label@ }
    }
}

pub open spec fn audio_views(list: Seq<AudioTrack>) -> Seq<Track> {
    Seq::new(list.len(), |i: int| list[i]@)
}

pub open spec fn subtitle_views(list: Seq<SubtitleTrack>) -> Seq<Track> {
    Seq::new(list.len(), |i: int| list[i]@)
}

/// A choice as a value.
#[verifier::ext_equal]
pub enum Choice {
    Automatic,
    Off,
    Track(Seq<char>),
}

impl View for AudioChoice {
    type V = Choice;

    open spec fn view(&self) -> Choice {
        match self {
            AudioChoice::Automatic => Choice::Automatic,
            AudioChoice::Track(id) => Choice::Track(id@),
        }
    }
}

impl View for SubtitleChoice {
    type V = Choice;

    open spec fn view(&self) -> Choice {
        match self {
            SubtitleChoice::Automatic => Choice::Automatic,
            SubtitleChoice::Off => Choice::Off,
            SubtitleChoice::Track(id) => Choice::Track(id@),
        }
    }
}

/// The target by which a menu names a choice. A track whose name happens to be
/// `auto` or `off` is still told apart.
pub open spec fn target_of(choice: Choice) -> Seq<char> {
    match choice {
        Choice::Automatic => "auto"@,
        Choice::Off => "off"@,
        Choice::Track(id) => "track:"@ + id,
    }
}

/// Different choices have different targets.
pub proof fn targets_tell_choices_apart(left: Choice, right: Choice)
    requires
        target_of(left) == target_of(right),
    ensures
        left == right,
{
    reveal_strlit("auto");
    reveal_strlit("off");
    reveal_strlit("track:");
    assert("auto"@[0] == 'a');
    assert("off"@[0] == 'o');
    assert("track:"@[0] == 't');
    if let (Choice::Track(a), Choice::Track(b)) = (left, right) {
        let prefix = "track:"@;
        assert((prefix + a).skip(prefix.len() as int) =~= a);
        assert((prefix + b).skip(prefix.len() as int) =~= b);
    }
    if let Choice::Track(a) = left {
        assert(target_of(left)[0] == 't');
    }
    if let Choice::Track(b) = right {
        assert(target_of(right)[0] == 't');
    }
}

/// What follows `track:` in a target.
fn track_id(target: &str) -> (result: Option<String>)
    ensures
        match result {
            Some(id) => "track:"@ + id@ == target@,
            None => !starts_with(target@, "track:"@),
        },
{
    if !has_prefix(target, "track:") {
        return None;
    }
    proof {
        reveal_strlit("track:");
    }
    let chars = chars_of(target);
    let id = copy_chars(chars.as_slice(), 6, chars.len());
    assert("track:"@ + id@ =~= target@);
    Some(text_of(id.as_slice()))
}

impl AudioChoice {
    pub fn action_target(&self) -> (result: String)
        ensures
            result@ == target_of(self@),
    {
        match self {
            AudioChoice::Automatic => "auto".to_owned(),
            AudioChoice::Track(id) => {
                let mut result = "track:".to_owned();
                result.append(id.as_str());
                result
            },
        }
    }

    /// The choice that a target names.
    pub fn of_target(target: &str) -> (result: Option<Self>)
        ensures
            match result {
                Some(choice) => target_of(choice@) == target@,
                None => target@ != "auto"@ && !starts_with(target@, "track:"@),
            },
    {
        if same_text(target, "auto") {
            return Some(AudioChoice::Automatic);
        }
        match track_id(target) {
            Some(id) => Some(AudioChoice::Track(id)),
            None => None,
        }
    }

    pub fn copy(&self) -> (result: Self)
        ensures
            result@ == self@,
    {
        match self {
            AudioChoice::Automatic => AudioChoice::Automatic,
            AudioChoice::Track(id) => AudioChoice::Track(id.clone()),
        }
    }
}

impl SubtitleChoice {
    pub fn action_target(&self) -> (result: String)
        ensures
            result@ == target_of(self@),
    {
        match self {
            SubtitleChoice::Automatic => "auto".to_owned(),
            SubtitleChoice::Off => "off".to_owned(),
            SubtitleChoice::Track(id) => {
                let mut result = "track:".to_owned();
                result.append(id.as_str());
                result
            },
        }
    }

    /// The choice that a target names.
    pub fn of_target(target: &str) -> (result: Option<Self>)
        ensures
            match result {
                Some(choice) => target_of(choice@) == target@,
                None => target@ != "auto"@ && target@ != "off"@ && !starts_with(
                    target@,
                    "track:"@,
                ),
            },
    {
        if same_text(target, "auto") {
            return Some(SubtitleChoice::Automatic);
        }
        if same_text(target, "off") {
            return Some(SubtitleChoice::Off);
        }
        match track_id(target) {
            Some(id) => Some(SubtitleChoice::Track(id)),
            None => None,
        }
    }

    pub fn copy(&self) -> (result: Self)
        ensures
            result@ == self@,
    {
        match self {
            SubtitleChoice::Automatic => SubtitleChoice::Automatic,
            SubtitleChoice::Off => SubtitleChoice::Off,
            SubtitleChoice::Track(id) => SubtitleChoice::Track(id.clone()),
        }
    }
}

impl Default for AudioChoice {
    fn default() -> (result: Self)
        ensures
            result@ == Choice::Automatic,
    {
        AudioChoice::Automatic
    }
}

impl Default for SubtitleChoice {
    fn default() -> (result: Self)
        ensures
            result@ == Choice::Automatic,
    {
        SubtitleChoice::Automatic
    }
}

/// `core::str::from_utf8` succeeds exactly on bytes that are UTF-8.
#[verifier::external_body]
fn is_utf8(bytes: &[u8]) -> (result: bool)
    ensures
        result == valid_utf8(bytes@),
{
    core::str::from_utf8(bytes).is_ok()
}

/// The lower case of a text: what `str::to_lowercase` makes of it.
pub uninterp spec fn lowered(text: Seq<char>) -> Seq<char>;

/// `str::to_lowercase` gives the lower case of a text, which depends on the text
/// alone. The mapping is that of the Unicode character database and is left
/// unsaid here.
#[verifier::external_body]
fn lower(text: &str) -> (result: String)
    ensures
        result@ == lowered(text@),
{
    text.to_lowercase()
}

/// A file beside a video.
pub struct Neighbor {
    pub name: Vec<u8>,
    /// Whether it is a regular file, or a link to one.
    pub regular: bool,
}

/// Whether a text is made of parts between dots, none of them empty.
pub open spec fn dotted(text: Seq<u8>) -> bool {
    &&& text.len() > 0
    &&& text[0] != DOT
    &&& text.last() != DOT
    &&& forall|i: int|
        0 <= i < text.len() - 1 && #[trigger] text[i] == DOT ==> text[i + 1] != DOT
}

/// Whether a subtitle's stem goes with a video's: it is the same, or the same
/// with suffixes such as a language.
pub open spec fn stem_matches(candidate: Seq<u8>, stem: Seq<u8>) -> bool {
    ||| candidate == stem
    ||| (candidate.len() > stem.len() && candidate.take(stem.len() as int) == stem
        && candidate[stem.len() as int] == DOT && dotted(candidate.skip(stem.len() as int + 1)))
}

/// Whether a name is that of a subtitle for a video with this stem.
pub open spec fn sidecar_name(name: Seq<u8>, stem: Seq<u8>) -> bool {
    &&& subtitle_path(name)
    &&& file_stem(name) matches Some(candidate) && valid_utf8(candidate) && stem_matches(
        candidate,
        stem,
    )
}

/// The stem of a video to which subtitles are matched.
pub open spec fn video_stem(video: Seq<u8>) -> Option<Seq<u8>> {
    match file_stem(video) {
        Some(stem) => if valid_utf8(stem) {
            Some(stem)
        } else {
            None
        },
        None => None,
    }
}

pub open spec fn is_exact(name: Seq<u8>, stem: Seq<u8>) -> bool {
    file_stem(name) == Some(stem)
}

pub open spec fn is_webvtt(name: Seq<u8>) -> bool {
    lower_extension(name) matches Some(text) && spells(text, "vtt"@)
}

/// The name by which subtitles of one kind are ordered.
pub open spec fn sort_name(name: Seq<u8>) -> Seq<int> {
    code_points(lowered(lossy_text(name)))
}

/// Which of two subtitles goes first: the one named exactly as the video, then
/// SRT before WebVTT, then by name without regard to case.
pub open spec fn sidecar_order(left: Seq<u8>, right: Seq<u8>, stem: Seq<u8>) -> int {
    if is_exact(left, stem) != is_exact(right, stem) {
        if is_exact(left, stem) {
            -1
        } else {
            1
        }
    } else if is_webvtt(left) != is_webvtt(right) {
        if is_webvtt(left) {
            1
        } else {
            -1
        }
    } else {
        lexical(sort_name(left), sort_name(right))
    }
}

/// Whether a file beside a video is a subtitle for it.
pub open spec fn eligible(neighbor: Neighbor, stem: Seq<u8>) -> bool {
    neighbor.regular && is_plain_name(neighbor.name@) && sidecar_name(neighbor.name@, stem)
}

/// `at` is the first of the best subtitles among the first `count` files.
pub open spec fn is_best(listing: Seq<Neighbor>, stem: Seq<u8>, at: int, count: int) -> bool {
    &&& 0 <= at < count
    &&& eligible(listing[at], stem)
    &&& forall|i: int|
        0 <= i < count && eligible(#[trigger] listing[i], stem) ==> sidecar_order(
            listing[at].name@,
            listing[i].name@,
            stem,
        ) <= 0
    &&& forall|i: int|
        0 <= i < at && eligible(#[trigger] listing[i], stem) ==> sidecar_order(
            listing[at].name@,
            listing[i].name@,
            stem,
        ) < 0
}

proof fn sidecar_order_swapped(left: Seq<u8>, right: Seq<u8>, stem: Seq<u8>)
    ensures
        sidecar_order(left, right, stem) == -sidecar_order(right, left, stem),
{
    lexical_swapped(sort_name(left), sort_name(right));
}

proof fn sidecar_order_transitive(
    first: Seq<u8>,
    second: Seq<u8>,
    third: Seq<u8>,
    stem: Seq<u8>,
)
    requires
        sidecar_order(first, second, stem) <= 0,
        sidecar_order(second, third, stem) <= 0,
    ensures
        sidecar_order(first, third, stem) <= 0,
        sidecar_order(first, second, stem) < 0 || sidecar_order(second, third, stem) < 0
            ==> sidecar_order(first, third, stem) < 0,
{
    let (a, b, c) = (sort_name(first), sort_name(second), sort_name(third));
    if lexical(a, b) <= 0 && lexical(b, c) <= 0 {
        lexical_transitive(a, b, c);
    }
}

/// Of one folder and one video at most one subtitle is the best: the choice is
/// deterministic.
pub proof fn best_is_unique(listing: Seq<Neighbor>, stem: Seq<u8>, left: int, right: int)
    requires
        is_best(listing, stem, left, listing.len() as int),
        is_best(listing, stem, right, listing.len() as int),
    ensures
        left == right,
{
    sidecar_order_swapped(listing[left].name@, listing[right].name@, stem);
    if left < right {
        assert(eligible(listing[left], stem));
    } else if right < left {
        assert(eligible(listing[right], stem));
    }
}

/// A subtitle named exactly as the video, in SRT, goes before every other kind.
pub proof fn exact_srt_wins(name: Seq<u8>, other: Seq<u8>, stem: Seq<u8>)
    requires
        is_exact(name, stem),
        !is_webvtt(name),
        !is_exact(other, stem) || is_webvtt(other),
    ensures
        sidecar_order(name, other, stem) < 0,
{
}

fn is_dotted(text: &[u8], start: usize) -> (result: bool)
    requires
        start <= text@.len(),
    ensures
        result == dotted(text@.skip(start as int)),
{
    let ghost rest = text@.skip(start as int);
    let length: usize = text.len();
    if start == length || text[start] == DOT || text[length - 1] == DOT {
        assert(start < length ==> rest.last() == text@[length - 1]);
        return false;
    }
    let mut at: usize = start;
    while at + 1 < length
        invariant
            start <= at < length,
            length == text@.len(),
            rest == text@.skip(start as int),
            forall|i: int| 0 <= i < at - start && #[trigger] rest[i] == DOT ==> rest[i + 1] != DOT,
        decreases length - at,
    {
        assert(rest[at - start] == text@[at as int]);
        assert(rest[at - start + 1] == text@[at + 1]);
        if text[at] == DOT && text[at + 1] == DOT {
            return false;
        }
        at = at + 1;
    }
    true
}

fn matches_stem(candidate: &[u8], stem: &[u8]) -> (result: bool)
    ensures
        result == stem_matches(candidate@, stem@),
{
    if same_bytes(candidate, stem) {
        return true;
    }
    let length: usize = stem.len();
    if candidate.len() <= length {
        return false;
    }
    for i in 0..length
        invariant
            length == stem@.len(),
            length < candidate@.len(),
            candidate@ != stem@,
            forall|j: int| 0 <= j < i ==> candidate@[j] == stem@[j],
    {
        if candidate[i] != stem[i] {
            assert(candidate@.take(length as int)[i as int] != stem@[i as int]);
            return false;
        }
    }
    assert(candidate@.take(length as int) =~= stem@);
    candidate[length] == DOT && is_dotted(candidate, length + 1)
}

/// Whether a name is that of a subtitle for a video. Cheap: it looks at the
/// names alone.
pub fn is_sidecar_name(name: &[u8], stem: &[u8]) -> (result: bool)
    ensures
        result == sidecar_name(name@, stem@),
{
    if !is_subtitle(name) {
        return false;
    }
    match file_stem_of(name) {
        Some(candidate) => is_utf8(candidate.as_slice()) && matches_stem(
            candidate.as_slice(),
            stem,
        ),
        None => false,
    }
}

/// The stem of a video to which subtitles are matched.
pub fn sidecar_stem(video: &[u8]) -> (result: Option<Vec<u8>>)
    ensures
        match result {
            Some(stem) => video_stem(video@) == Some(stem@),
            None => video_stem(video@) is None,
        },
{
    match file_stem_of(video) {
        Some(stem) => if is_utf8(stem.as_slice()) {
            Some(stem)
        } else {
            None
        },
        None => None,
    }
}

fn exact_name(name: &[u8], stem: &[u8]) -> (result: bool)
    ensures
        result == is_exact(name@, stem@),
{
    match file_stem_of(name) {
        Some(candidate) => same_bytes(candidate.as_slice(), stem),
        None => false,
    }
}

fn webvtt_name(name: &[u8]) -> (result: bool)
    ensures
        result == is_webvtt(name@),
{
    match lowercase_ext(name) {
        Some(text) => bytes_spell(text.as_slice(), "vtt"),
        None => false,
    }
}

fn order_sidecars(left: &[u8], right: &[u8], stem: &[u8]) -> (result: i8)
    ensures
        result as int == sidecar_order(left@, right@, stem@),
{
    let left_exact = exact_name(left, stem);
    if left_exact != exact_name(right, stem) {
        return if left_exact {
            -1
        } else {
            1
        };
    }
    let left_webvtt = webvtt_name(left);
    if left_webvtt != webvtt_name(right) {
        return if left_webvtt {
            1
        } else {
            -1
        };
    }
    let l = chars_of(lower(lossy(left).as_str()).as_str());
    let r = chars_of(lower(lossy(right).as_str()).as_str());
    order_chars(l.as_slice(), r.as_slice())
}

/// Finds one deterministic automatic subtitle among the files of the video's
/// folder. A file named exactly as the video goes before one with a suffix; of two
/// alike in this, SRT goes before WebVTT, and then the order of names decides.
/// Nothing is found once the search was cancelled.
pub fn matching_sidecar_cancellable(
    video: &[u8],
    directory: &[u8],
    listing: &Vec<Neighbor>,
    cancelled: bool,
) -> (result: Option<Vec<u8>>)
    ensures
        match result {
            Some(path) => !cancelled && (video_stem(video@) matches Some(stem) && exists|at: int|
                is_best(listing@, stem, at, listing@.len() as int) && path@ == joined(
                    directory@,
                    (#[trigger] listing@[at]).name@,
                )),
            None => cancelled || (match video_stem(video@) {
                Some(stem) => forall|i: int|
                    0 <= i < listing@.len() ==> !eligible(#[trigger] listing@[i], stem),
                None => true,
            }),
        },
{
    if cancelled {
        return None;
    }
    let stem = match sidecar_stem(video) {
        Some(stem) => stem,
        None => return None,
    };
    let mut best: Option<usize> = None;
    for i in 0..listing.len()
        invariant
            match best {
                Some(at) => is_best(listing@, stem@, at as int, i as int),
                None => forall|k: int|
                    0 <= k < i ==> !eligible(#[trigger] listing@[k], stem@),
            },
    {
        let name = listing[i].name.as_slice();
        if listing[i].regular && plain_name(name) && is_sidecar_name(name, stem.as_slice()) {
            assert(eligible(listing@[i as int], stem@));
            proof {
                lexical_equal(sort_name(name@), sort_name(name@));
            }
            match best {
                Some(at) => {
                    let sign = order_sidecars(
                        name,
                        listing[at].name.as_slice(),
                        stem.as_slice(),
                    );
                    proof {
                        sidecar_order_swapped(name@, listing@[at as int].name@, stem@);
                        if sign < 0 {
                            assert forall|k: int|
                                0 <= k < i && eligible(#[trigger] listing@[k], stem@) implies
                                sidecar_order(name@, listing@[k].name@, stem@) < 0 by {
                                sidecar_order_transitive(
                                    name@,
                                    listing@[at as int].name@,
                                    listing@[k].name@,
                                    stem@,
                                );
                            }
                        }
                    }
                    if sign < 0 {
                        best = Some(i);
                    }
                },
                None => {
                    best = Some(i);
                },
            }
        }
    }
    match best {
        Some(at) => {
            assert(is_best(listing@, stem@, at as int, listing@.len() as int));
            Some(join(directory, listing[at].name.as_slice()))
        },
        None => None,
    }
}

/// A choice is named in a menu by a word of its own, a track by its name behind a
/// mark that no such word begins with.
pub proof fn choices_are_named_in_menus(id: Seq<char>)
    ensures
        target_of(Choice::Automatic) == "auto"@,
        target_of(Choice::Off) == "off"@,
        target_of(Choice::Track(id)) == "track:"@ + id,
{
}

/// A subtitle goes with the video that has its stem, and with the one whose stem it
/// has before a dot and a suffix; an empty suffix is none.
pub proof fn subtitles_go_by_their_stems(stem: Seq<u8>, suffix: Seq<u8>, other: Seq<u8>)
    ensures
        stem_matches(stem, stem),
        !stem_matches(stem + seq![46u8], stem),
        suffix.len() > 0 && (forall|i: int| 0 <= i < suffix.len() ==> #[trigger] suffix[i] != 46)
            ==> stem_matches(stem + seq![46u8] + suffix, stem),
        suffix.len() > 0 && suffix[0] == 46 ==> !stem_matches(stem + seq![46u8] + suffix, stem),
        suffix.len() > 0 && suffix.last() == 46 ==> !stem_matches(
            stem + seq![46u8] + suffix,
            stem,
        ),
        suffix.len() > 0 && suffix[0] != 46 ==> !stem_matches(stem + suffix, stem),
        other.len() < stem.len() ==> !stem_matches(other, stem),
        stem_matches(other, stem) ==> other.len() >= stem.len() && other.take(stem.len() as int)
            == stem,
{
    let bare = stem + seq![46u8];
    let full = stem + seq![46u8] + suffix;
    assert(bare.skip(stem.len() as int + 1).len() == 0);
    assert(full.skip(stem.len() as int + 1) =~= suffix);
    assert(full.take(stem.len() as int) =~= stem);
    assert(full[stem.len() as int] == 46);
    assert((stem + suffix).len() == stem.len() + suffix.len());
    if suffix.len() > 0 {
        assert((stem + suffix)[stem.len() as int] == suffix[0]);
        assert(full.len() != stem.len());
    }
    assert(bare.len() != stem.len());
    assert(other.take(other.len() as int) =~= other);
}

/// Which of two subtitles goes first: the one named exactly as the video whatever
/// its format; of two alike in this, SRT before WebVTT whatever their names.
pub proof fn subtitles_have_an_order(left: Seq<u8>, right: Seq<u8>, stem: Seq<u8>)
    ensures
        file_stem(left) == Some(stem) && file_stem(right) != Some(stem) ==> sidecar_order(
            left,
            right,
            stem,
        ) < 0 && sidecar_order(right, left, stem) > 0,
        (file_stem(left) == Some(stem)) == (file_stem(right) == Some(stem)) && !is_webvtt(left)
            && is_webvtt(right) ==> sidecar_order(left, right, stem) < 0 && sidecar_order(
            right,
            left,
            stem,
        ) > 0,
        is_webvtt(left) <==> lower_extension(left) is Some && spells(
            lower_extension(left)->0,
            "vtt"@,
        ),
        sidecar_order(left, left, stem) == 0,
{
    sidecar_order_swapped(left, left, stem);
}

/// Only a regular file with a subtitle's extension, a stem that is text, and the
/// video's stem in it goes with a video.
pub proof fn only_subtitle_files_go_with_a_video(neighbor: Neighbor, stem: Seq<u8>)
    ensures
        eligible(neighbor, stem) <==> {
            &&& neighbor.regular
            &&& is_plain_name(neighbor.name@)
            &&& subtitle_path(neighbor.name@)
            &&& file_stem(neighbor.name@) is Some
            &&& valid_utf8(file_stem(neighbor.name@)->0)
            &&& stem_matches(file_stem(neighbor.name@)->0, stem)
        },
        file_stem(neighbor.name@) == Some(stem) && valid_utf8(stem) && neighbor.regular
            && is_plain_name(neighbor.name@) && subtitle_path(neighbor.name@) ==> eligible(
            neighbor,
            stem,
        ),
{
}

/// Subtitles are looked for by the stem of the video, where that is text.
pub proof fn videos_are_matched_by_their_stems(video: Seq<u8>)
    ensures
        video_stem(video) is Some <==> file_stem(video) is Some && valid_utf8(
            file_stem(video)->0,
        ),
        video_stem(video) is Some ==> video_stem(video) == file_stem(video),
{
}

}
