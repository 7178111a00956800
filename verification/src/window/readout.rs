//! What the overlay says: positions, times, rates and choices.
use vstd::prelude::*;

use crate::player::tracks::{
    audio_views, subtitle_views, AudioChoice, AudioSnapshot, Choice, SubtitleChoice,
    SubtitleSnapshot, Track,
};
use crate::player::{playback_rates, rates};
use crate::text::{decimal_digits, push_decimal, same_text};

verus! {

/// One place ahead of an index, as people count, and how many there are.
pub open spec fn place_text(index: nat, total: nat) -> Seq<char> {
    decimal_digits(index + 1) + " of "@ + decimal_digits(total)
}

pub fn position_text(index: usize, total: usize) -> (result: String)
    requires
        index < usize::MAX,
    ensures
        result@ == place_text(index as nat, total as nat),
{
    let mut result = String::new();
    push_decimal(&mut result, index as u64 + 1);
    result.append(" of ");
    push_decimal(&mut result, total as u64);
    assert(result@ =~= place_text(index as nat, total as nat));
    result
}

/// A number below one hundred in two digits.
pub open spec fn two_digits(number: nat) -> Seq<char> {
    if number < 10 {
        "0"@ + decimal_digits(number)
    } else {
        decimal_digits(number)
    }
}

fn push_two_digits(text: &mut String, number: u64)
    ensures
        final(text)@ == old(text)@ + two_digits(number as nat),
{
    if number < 10 {
        text.append("0");
    }
    push_decimal(text, number);
    assert(text@ =~= old(text)@ + two_digits(number as nat));
}

/// `M:SS`, or `H:MM:SS` from the first hour.
pub open spec fn clock_text(seconds: nat) -> Seq<char> {
    let hours = seconds / 3600;
    let minutes = (seconds % 3600) / 60;
    let rest = seconds % 60;
    if hours > 0 {
        decimal_digits(hours) + ":"@ + two_digits(minutes) + ":"@ + two_digits(rest)
    } else {
        decimal_digits(minutes) + ":"@ + two_digits(rest)
    }
}

/// The nearest whole second of a time in nanoseconds; there are none before the start.
pub open spec fn nearest_second(time: i64) -> nat {
    if time <= 0 {
        0
    } else {
        ((time + 500_000_000) / 1_000_000_000) as nat
    }
}

/// A time in nanoseconds, to the nearest second.
pub fn format_time(time: i64) -> (result: String)
    ensures
        result@ == clock_text(nearest_second(time)),
{
    let seconds: u64 = if time <= 0 {
        0
    } else {
        (time as u64 + 500_000_000) / 1_000_000_000
    };
    let hours: u64 = seconds / 3600;
    let mut result = String::new();
    if hours > 0 {
        push_decimal(&mut result, hours);
        result.append(":");
        push_two_digits(&mut result, (seconds % 3600) / 60);
    } else {
        push_decimal(&mut result, (seconds % 3600) / 60);
    }
    result.append(":");
    push_two_digits(&mut result, seconds % 60);
    assert(result@ =~= clock_text(nearest_second(time)));
    result
}

/// Where playback is, and how long the video runs.
pub fn progress_text(position: i64, duration: i64) -> (result: String)
    ensures
        result@ == clock_text(nearest_second(position)) + " / "@ + clock_text(
            nearest_second(duration),
        ),
{
    format_time(position).concat(" / ").concat(format_time(duration).as_str())
}

/// A rate in hundredths, without the zeros that say nothing.
pub open spec fn rate_text(rate: nat) -> Seq<char> {
    let whole = decimal_digits(rate / 100);
    let value = if rate % 100 == 0 {
        whole
    } else if rate % 10 == 0 {
        whole + "."@ + decimal_digits(rate % 100 / 10)
    } else {
        whole + "."@ + two_digits(rate % 100)
    };
    value + "×"@
}

pub fn format_playback_rate(rate: u32) -> (result: String)
    ensures
        result@ == rate_text(rate as nat),
{
    let mut result = String::new();
    push_decimal(&mut result, (rate / 100) as u64);
    let part: u64 = (rate % 100) as u64;
    if part != 0 {
        result.append(".");
        if rate % 10 == 0 {
            push_decimal(&mut result, part / 10);
        } else {
            push_two_digits(&mut result, part);
        }
    }
    result.append("×");
    assert(result@ =~= rate_text(rate as nat));
    result
}

/// How far two rates are apart.
pub open spec fn apart(left: int, right: int) -> int {
    if left < right {
        right - left
    } else {
        left - right
    }
}

/// Whether the preset at a place is the nearest to a rate, the first of those that are.
pub open spec fn is_nearest(at: int, rate: int) -> bool {
    &&& 0 <= at < rates().len()
    &&& forall|i: int|
        0 <= i < rates().len() ==> apart(rates()[at] as int, rate) <= apart(
            #[trigger] rates()[i] as int,
            rate,
        )
    &&& forall|i: int|
        0 <= i < at ==> apart(rates()[at] as int, rate) < apart(#[trigger] rates()[i] as int, rate)
}

/// The place one step away, which stays among the presets.
pub open spec fn stepped(at: int, direction: int) -> int {
    if direction < 0 {
        if at == 0 {
            0
        } else {
            at - 1
        }
    } else if at + 1 < rates().len() {
        at + 1
    } else {
        rates().len() - 1
    }
}

fn distance(left: u32, right: u32) -> (result: u32)
    ensures
        result == apart(left as int, right as int),
{
    if left < right {
        right - left
    } else {
        left - right
    }
}

/// The preset one step slower or faster than the one nearest to a rate.
pub fn adjacent_playback_rate(current: u32, direction: i8) -> (result: u32)
    ensures
        exists|at: int|
            #[trigger] is_nearest(at, current as int) && result == rates()[stepped(
                at,
                direction as int,
            )],
{
    let list = playback_rates();
    let mut best: usize = 0;
    for i in 0..list.len()
        invariant
            list@ == rates(),
            rates().len() == 6,
            best < list@.len(),
            best == 0 || best < i,
            forall|k: int|
                0 <= k < i ==> apart(rates()[best as int] as int, current as int) <= apart(
                    #[trigger] rates()[k] as int,
                    current as int,
                ),
            forall|k: int|
                0 <= k < best ==> apart(rates()[best as int] as int, current as int) < apart(
                    #[trigger] rates()[k] as int,
                    current as int,
                ),
    {
        if distance(list[i], current) < distance(list[best], current) {
            best = i;
        }
    }
    assert(is_nearest(best as int, current as int));
    let next: usize = if direction < 0 {
        if best == 0 {
            0
        } else {
            best - 1
        }
    } else if best + 1 < list.len() {
        best + 1
    } else {
        list.len() - 1
    };
    list[next]
}

/// From one preset, a step leads to the next one, and at either end stays there.
pub proof fn steps_follow_the_presets(at: int, direction: int)
    requires
        0 <= at < rates().len(),
    ensures
        forall|other: int|
            #[trigger] is_nearest(other, rates()[at] as int) ==> other == at,
        0 <= stepped(at, direction) < rates().len(),
        direction < 0 && at > 0 ==> stepped(stepped(at, direction), 1) == at,
        direction >= 0 && at + 1 < rates().len() ==> stepped(stepped(at, direction), -1) == at,
{
    let list = rates();
    assert(list[0] == 50 && list[1] == 75 && list[2] == 100 && list[3] == 125 && list[4] == 150
        && list[5] == 200);
    let rate = list[at] as int;
    assert forall|other: int| #[trigger] is_nearest(other, rate) implies other == at by {
        assert(apart(list[other] as int, rate) <= apart(list[at] as int, rate));
    }
}

pub fn volume_text(percent: u64) -> (result: String)
    ensures
        result@ == "Volume "@ + decimal_digits(percent as nat) + "%"@,
{
    let mut result = "Volume ".to_owned();
    push_decimal(&mut result, percent);
    result.append("%");
    result
}

/// The label of the first track with a name.
pub open spec fn label_of(tracks: Seq<Track>, id: Seq<char>) -> Option<Seq<char>>
    decreases tracks.len(),
{
    if tracks.len() == 0 {
        None
    } else if tracks[0].id == id {
        Some(tracks[0].label)
    } else {
        label_of(tracks.skip(1), id)
    }
}

pub open spec fn optional(text: Option<String>) -> Option<Seq<char>> {
    match text {
        Some(found) => Some(found@),
        None => None,
    }
}

/// What to say of a choice of audio track.
pub open spec fn audio_text(tracks: Seq<Track>, choice: Choice, active: Option<Seq<char>>) -> Seq<
    char,
> {
    "Audio: "@ + match choice {
        Choice::Track(id) => match label_of(tracks, id) {
            Some(label) => label,
            None => "Audio changed"@,
        },
        _ => match active {
            Some(label) => label,
            None => "Automatic"@,
        },
    }
}

pub fn audio_choice_text(snapshot: &AudioSnapshot) -> (result: String)
    ensures
        result@ == audio_text(
            audio_views(snapshot.tracks@),
            snapshot.choice@,
            optional(snapshot.active_label),
        ),
{
    let lead = "Audio: ".to_owned();
    match &snapshot.choice {
        AudioChoice::Automatic => match &snapshot.active_label {
            Some(label) => lead.concat(label.as_str()),
            None => lead.concat("Automatic"),
        },
        AudioChoice::Track(id) => {
            let ghost tracks = audio_views(snapshot.tracks@);
            assert(tracks.skip(0) =~= tracks);
            for i in 0..snapshot.tracks.len()
                invariant
                    tracks == audio_views(snapshot.tracks@),
                    label_of(tracks, id@) == label_of(tracks.skip(i as int), id@),
                    snapshot.choice@ == Choice::Track(id@),
                    lead@ == "Audio: "@,
            {
                assert(tracks.skip(i as int).skip(1) =~= tracks.skip(i + 1));
                if same_text(snapshot.tracks[i].id.as_str(), id.as_str()) {
                    return lead.concat(snapshot.tracks[i].label.as_str());
                }
            }
            assert(tracks.skip(tracks.len() as int).len() == 0);
            lead.concat("Audio changed")
        },
    }
}

/// What to say of a choice of subtitles.
pub open spec fn subtitle_text(
    tracks: Seq<Track>,
    choice: Choice,
    active: Option<Seq<char>>,
) -> Seq<char> {
    match choice {
        Choice::Off => "Subtitles off"@,
        Choice::Automatic => "Subtitles: "@ + match active {
            Some(label) => label,
            None => "Automatic"@,
        },
        Choice::Track(id) => match label_of(tracks, id) {
            Some(label) => "Subtitles: "@ + label,
            None => "Subtitles changed"@,
        },
    }
}

pub fn subtitle_choice_text(snapshot: &SubtitleSnapshot) -> (result: String)
    ensures
        result@ == subtitle_text(
            subtitle_views(snapshot.tracks@),
            snapshot.choice@,
            optional(snapshot.active_label),
        ),
{
    let lead = "Subtitles: ".to_owned();
    match &snapshot.choice {
        SubtitleChoice::Off => "Subtitles off".to_owned(),
        SubtitleChoice::Automatic => match &snapshot.active_label {
            Some(label) => lead.concat(label.as_str()),
            None => lead.concat("Automatic"),
        },
        SubtitleChoice::Track(id) => {
            let ghost tracks = subtitle_views(snapshot.tracks@);
            assert(tracks.skip(0) =~= tracks);
            for i in 0..snapshot.tracks.len()
                invariant
                    tracks == subtitle_views(snapshot.tracks@),
                    label_of(tracks, id@) == label_of(tracks.skip(i as int), id@),
                    snapshot.choice@ == Choice::Track(id@),
                    lead@ == "Subtitles: "@,
            {
                assert(tracks.skip(i as int).skip(1) =~= tracks.skip(i + 1));
                if same_text(snapshot.tracks[i].id.as_str(), id.as_str()) {
                    return lead.concat(snapshot.tracks[i].label.as_str());
                }
            }
            assert(tracks.skip(tracks.len() as int).len() == 0);
            "Subtitles changed".to_owned()
        },
    }
}

/// Files are counted from one.
pub proof fn files_are_counted_from_one(index: nat, total: nat)
    ensures
        place_text(index, total) == decimal_digits(index + 1) + " of "@ + decimal_digits(total),
{
}

/// A clock shows hours, minutes and seconds, the seconds in two figures and the
/// minutes in two behind hours; hours show only where there are any.
pub proof fn clocks_show_hours_minutes_and_seconds(hours: nat, minutes: nat, seconds: nat)
    requires
        minutes < 60,
        seconds < 60,
    ensures
        hours == 0 ==> clock_text(60 * minutes + seconds) == decimal_digits(minutes) + ":"@
            + two_digits(seconds),
        hours > 0 ==> clock_text(3600 * hours + 60 * minutes + seconds) == decimal_digits(hours)
            + ":"@ + two_digits(minutes) + ":"@ + two_digits(seconds),
        seconds < 10 ==> two_digits(seconds) == "0"@ + decimal_digits(seconds),
        seconds >= 10 ==> two_digits(seconds) == decimal_digits(seconds),
{
    let all = 3600 * hours + 60 * minutes + seconds;
    assert(all / 3600 == hours && all % 3600 == 60 * minutes + seconds && all % 60 == seconds)
        by (nonlinear_arith)
        requires
            all == 3600 * hours + 60 * minutes + seconds,
            minutes < 60,
            seconds < 60,
    ;
    assert((60 * minutes + seconds) / 60 == minutes) by (nonlinear_arith)
        requires
            seconds < 60,
    ;
}

/// A time is shown by the second it is nearest to, the later one halfway, and never
/// before the start.
pub proof fn times_are_shown_to_the_nearest_second(time: i64, second: nat)
    ensures
        time <= 0 ==> nearest_second(time) == 0,
        time > 0 ==> -500_000_000 < nearest_second(time) * 1_000_000_000 - time <= 500_000_000,
        time == second * 1_000_000_000 ==> nearest_second(time) == second,
{
    if time > 0 {
        let shifted = time + 500_000_000;
        assert(shifted / 1_000_000_000 * 1_000_000_000 + shifted % 1_000_000_000 == shifted)
            by (nonlinear_arith);
    }
}

/// A rate is shown in wholes and hundredths, without zeros that say nothing.
pub proof fn rates_are_shown_without_idle_zeros(whole: nat, tenths: nat, hundredths: nat)
    requires
        tenths < 10,
        hundredths < 10,
    ensures
        rate_text(100 * whole) == decimal_digits(whole) + "×"@,
        tenths > 0 ==> rate_text(100 * whole + 10 * tenths) == decimal_digits(whole) + "."@
            + decimal_digits(tenths) + "×"@,
        hundredths > 0 ==> rate_text(100 * whole + 10 * tenths + hundredths) == decimal_digits(
            whole,
        ) + "."@ + two_digits(10 * tenths + hundredths) + "×"@,
{
    let first = 100 * whole;
    let second = 100 * whole + 10 * tenths;
    let third = 100 * whole + 10 * tenths + hundredths;
    assert(first / 100 == whole && first % 100 == 0) by (nonlinear_arith)
        requires
            first == 100 * whole,
    ;
    assert(second / 100 == whole && second % 100 == 10 * tenths && second % 10 == 0)
        by (nonlinear_arith)
        requires
            second == 100 * whole + 10 * tenths,
            tenths < 10,
    ;
    assert(10 * tenths / 10 == tenths);
    assert(third / 100 == whole && third % 100 == 10 * tenths + hundredths && third % 10
        == hundredths) by (nonlinear_arith)
        requires
            third == 100 * whole + 10 * tenths + hundredths,
            tenths < 10,
            hundredths < 10,
    ;
}

/// A step down is to a slower preset and a step up to a faster one, the very next;
/// at either end there is no further to go.
pub proof fn steps_change_the_rate(at: int, rate: int)
    requires
        0 <= at < rates().len(),
    ensures
        at > 0 ==> stepped(at, -1) == at - 1,
        at == 0 ==> stepped(at, -1) == 0,
        at + 1 < rates().len() ==> stepped(at, 1) == at + 1,
        at + 1 == rates().len() ==> stepped(at, 1) == at,
        is_nearest(at, rate) ==> forall|i: int|
            #![trigger rates()[i]]
            0 <= i < rates().len() ==> (rates()[at] - rate <= rates()[i] - rate || rates()[at] - rate
                <= rate - rates()[i]) && (rate - rates()[at] <= rates()[i] - rate || rate
                - rates()[at] <= rate - rates()[i]),
        rates()[at] == rate ==> is_nearest(at, rate),
{
    assert(rates().len() == 6);
}

/// A track is called by its label.
pub proof fn tracks_are_called_by_their_labels(tracks: Seq<Track>, at: int)
    requires
        0 <= at < tracks.len(),
        forall|i: int| 0 <= i < at ==> (#[trigger] tracks[i]).id != tracks[at].id,
    ensures
        label_of(tracks, tracks[at].id) == Some(tracks[at].label),
    decreases at,
{
    if at > 0 {
        let rest = tracks.skip(1);
        assert(tracks[0].id != tracks[at].id);
        assert forall|i: int| 0 <= i < at - 1 implies (#[trigger] rest[i]).id != rest[at - 1].id by {
            assert(rest[i] == tracks[i + 1]);
        }
        tracks_are_called_by_their_labels(rest, at - 1);
    }
}

/// A track that is not there has no label.
pub proof fn unknown_tracks_have_no_label(tracks: Seq<Track>, id: Seq<char>)
    requires
        forall|i: int| 0 <= i < tracks.len() ==> (#[trigger] tracks[i]).id != id,
    ensures
        label_of(tracks, id) is None,
    decreases tracks.len(),
{
    if tracks.len() > 0 {
        let rest = tracks.skip(1);
        assert(tracks[0].id != id);
        assert forall|i: int| 0 <= i < rest.len() implies (#[trigger] rest[i]).id != id by {
            assert(rest[i] == tracks[i + 1]);
        }
        unknown_tracks_have_no_label(rest, id);
    }
}

/// The track that was chosen is said by its label; where none was, what plays is said,
/// and off is off.
pub proof fn choices_are_said(
    tracks: Seq<Track>,
    id: Seq<char>,
    label: Seq<char>,
    active: Option<Seq<char>>,
)
    ensures
        label_of(tracks, id) == Some(label) ==> audio_text(tracks, Choice::Track(id), active)
            == "Audio: "@ + label,
        label_of(tracks, id) is None ==> audio_text(tracks, Choice::Track(id), active)
            == "Audio: "@ + "Audio changed"@,
        audio_text(tracks, Choice::Automatic, Some(label)) == "Audio: "@ + label,
        audio_text(tracks, Choice::Automatic, None) == "Audio: "@ + "Automatic"@,
        label_of(tracks, id) == Some(label) ==> subtitle_text(tracks, Choice::Track(id), active)
            == "Subtitles: "@ + label,
        label_of(tracks, id) is None ==> subtitle_text(tracks, Choice::Track(id), active)
            == "Subtitles changed"@,
        subtitle_text(tracks, Choice::Automatic, Some(label)) == "Subtitles: "@ + label,
        subtitle_text(tracks, Choice::Automatic, None) == "Subtitles: "@ + "Automatic"@,
        subtitle_text(tracks, Choice::Off, active) == "Subtitles off"@,
{
}

}
