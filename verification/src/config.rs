//! Plain-text configuration.
//!
//! Format: `key=value` lines, `#` comments. Key bindings use repeated
//! `bind=<key> <action>` lines. Unknown or malformed lines are reported and
//! skipped: a bad configuration never prevents startup.
use vstd::prelude::*;

use crate::keymap::KeyMap;
use crate::number::{Real, HUNDRED, HUNDRED_AND_FIFTY, TWO, ZERO};
use crate::paths::{extension, extension_of};
use crate::text::{
    bytes_spell, chars_of, decimal_digits, lines, lines_of, push_decimal, runs, same_chars, spells, split_at_char,
    is_white_space, split_once, text_of, trim, trimmed,
};

verus! {

#[derive(Debug, Clone, Copy, PartialEq, Eq, Structural)]
pub enum SortOrder {
    Name,
    Date,
}

/// Folder ordering: which key, and which way. Reversing is separate from
/// the key because the useful direction differs: names read naturally
/// ascending, dates newest first.
#[derive(Debug, Clone, Copy, PartialEq, Eq, Structural)]
pub struct Sort {
    pub order: SortOrder,
    pub reverse: bool,
}

#[derive(Debug, Clone, Copy, PartialEq, Eq, Structural)]
pub enum FitMode {
    Fit,
    Actual,
}

pub struct Config {
    pub background: String,
    pub sort: Sort,
    pub wrap: bool,
    /// Replay a video at end of stream, the way animated images loop.
    pub loop_video: bool,
    /// Open fullscreen instead of sized to the media.
    pub start_fullscreen: bool,
    /// Starting playback volume in percent, 0 to 150.
    pub volume: Real,
    pub fit: FitMode,
    /// Seconds of pointer inactivity before overlay controls fade out.
    pub overlay_timeout: Real,
    /// Hide the pointer along with the overlay controls.
    pub hide_cursor: bool,
    /// Megabytes of decoded frames the cache may hold beyond the image on
    /// screen.
    pub cache_budget_mb: u32,
    /// Key to action name.
    pub binds: KeyMap<String>,
}

/// What a configuration says.
#[verifier::ext_equal]
pub struct Settings {
    pub background: Seq<char>,
    pub sort: Sort,
    pub wrap: bool,
    pub loop_video: bool,
    pub start_fullscreen: bool,
    pub volume: Real,
    pub fit: FitMode,
    pub overlay_timeout: Real,
    pub hide_cursor: bool,
    pub cache_budget_mb: u32,
    pub binds: Map<Seq<char>, Seq<char>>,
}

/// A line that was skipped, and why.
pub struct Warning {
    /// Counted from 1.
    pub line: u64,
    pub text: String,
    pub message: String,
}

/// What a warning says.
#[verifier::ext_equal]
pub struct Complaint {
    pub line: int,
    pub text: Seq<char>,
    pub message: Seq<char>,
}

impl View for Warning {
    type V = Complaint;

    open spec fn view(&self) -> Complaint {
        Complaint { line: self.line as int, text: self.text@, message: self.message@ }
    }
}

pub open spec fn complaints(list: Seq<Warning>) -> Seq<Complaint> {
    Seq::new(list.len(), |i: int| list[i]@)
}

/// The settings that hold where the configuration says nothing.
pub open spec fn default_settings() -> Settings {
    Settings {
        background: "#121212"@,
        sort: Sort { order: SortOrder::Name, reverse: false },
        wrap: false,
        loop_video: true,
        start_fullscreen: false,
        volume: Real { bits: HUNDRED },
        fit: FitMode::Fit,
        overlay_timeout: Real { bits: TWO },
        hide_cursor: true,
        cache_budget_mb: 256,
        binds: Map::empty(),
    }
}

/// The truth value that a word stands for.
pub open spec fn bool_value(word: Seq<char>) -> Option<bool> {
    if word == "yes"@ || word == "true"@ || word == "on"@ {
        Some(true)
    } else if word == "no"@ || word == "false"@ || word == "off"@ {
        Some(false)
    } else {
        None
    }
}

/// The number that digits spell in base ten.
pub open spec fn digits_value(digits: Seq<char>) -> int
    decreases digits.len(),
{
    if digits.len() == 0 {
        0
    } else {
        digits_value(digits.drop_last()) * 10 + (digits.last() as int - '0' as int)
    }
}

pub open spec fn all_digits(text: Seq<char>) -> bool {
    forall|i: int| 0 <= i < text.len() ==> '0' <= #[trigger] text[i] && text[i] <= '9'
}

/// The whole number that a text spells: digits, with or without a plus sign in
/// front, within 32 bits.
pub open spec fn whole_number(text: Seq<char>) -> Option<u32> {
    let digits = if text.len() > 0 && text[0] == '+' {
        text.skip(1)
    } else {
        text
    };
    if digits.len() > 0 && all_digits(digits) && digits_value(digits) <= u32::MAX {
        Some(digits_value(digits) as u32)
    } else {
        None
    }
}

/// The key and the action of a `bind` value.
pub open spec fn binding(value: Seq<char>) -> Option<(Seq<char>, Seq<char>)> {
    match split_once(value, ' ') {
        Some((key, action)) => if key.len() > 0 && trimmed(action).len() > 0 {
            Some((key, trimmed(action)))
        } else {
            None
        },
        None => None,
    }
}

/// The key and the value of a line that is neither empty nor a comment.
pub enum Content {
    Nothing,
    Malformed,
    Option { key: Seq<char>, value: Seq<char> },
}

pub open spec fn content(line: Seq<char>) -> Content {
    let text = trimmed(line);
    if text.len() == 0 || text[0] == '#' {
        Content::Nothing
    } else {
        match split_once(text, '=') {
            Some((key, value)) => Content::Option { key: trimmed(key), value: trimmed(value) },
            None => Content::Malformed,
        }
    }
}

/// The text that a line asks to have read as a decimal number.
pub open spec fn decimal_request(line: Seq<char>) -> Option<Seq<char>> {
    match content(line) {
        Content::Option { key, value } => if key == "volume"@ || key == "overlay-timeout"@ {
            Some(value)
        } else {
            None
        },
        _ => None,
    }
}

/// What `key=value` does to the settings: the new settings, or why the line is
/// skipped. `reading` is the decimal number that the value spells, if it does.
pub open spec fn assigned(
    settings: Settings,
    key: Seq<char>,
    value: Seq<char>,
    reading: Option<Real>,
) -> Result<Settings, Seq<char>> {
    if key == "background"@ {
        Ok(Settings { background: value, ..settings })
    } else if key == "sort"@ {
        if value == "name"@ {
            Ok(
                Settings {
                    sort: Sort { order: SortOrder::Name, reverse: settings.sort.reverse },
                    ..settings
                },
            )
        } else if value == "date"@ {
            Ok(
                Settings {
                    sort: Sort { order: SortOrder::Date, reverse: settings.sort.reverse },
                    ..settings
                },
            )
        } else {
            Err("sort must be name|date"@)
        }
    } else if key == "sort-reverse"@ {
        match bool_value(value) {
            Some(b) => Ok(
                Settings { sort: Sort { order: settings.sort.order, reverse: b }, ..settings },
            ),
            None => Err("sort-reverse must be yes|no"@),
        }
    } else if key == "loop"@ {
        match bool_value(value) {
            Some(b) => Ok(Settings { loop_video: b, ..settings }),
            None => Err("loop must be yes|no"@),
        }
    } else if key == "start-fullscreen"@ {
        match bool_value(value) {
            Some(b) => Ok(Settings { start_fullscreen: b, ..settings }),
            None => Err("start-fullscreen must be yes|no"@),
        }
    } else if key == "volume"@ {
        match reading {
            Some(v) => if v.is_at_least(Real { bits: ZERO }) && (Real {
                bits: HUNDRED_AND_FIFTY,
            }).is_at_least(v) {
                Ok(Settings { volume: v, ..settings })
            } else {
                Err("volume must be a percentage, 0-150"@)
            },
            None => Err("volume must be a percentage, 0-150"@),
        }
    } else if key == "wrap"@ {
        match bool_value(value) {
            Some(b) => Ok(Settings { wrap: b, ..settings }),
            None => Err("wrap must be yes|no"@),
        }
    } else if key == "fit"@ {
        if value == "fit"@ {
            Ok(Settings { fit: FitMode::Fit, ..settings })
        } else if value == "actual"@ {
            Ok(Settings { fit: FitMode::Actual, ..settings })
        } else {
            Err("fit must be fit|actual"@)
        }
    } else if key == "overlay-timeout"@ {
        match reading {
            Some(t) => if t.is_at_least(Real { bits: ZERO }) {
                Ok(Settings { overlay_timeout: t, ..settings })
            } else {
                Err("overlay-timeout must be seconds"@)
            },
            None => Err("overlay-timeout must be seconds"@),
        }
    } else if key == "hide-cursor"@ {
        match bool_value(value) {
            Some(b) => Ok(Settings { hide_cursor: b, ..settings }),
            None => Err("hide-cursor must be yes|no"@),
        }
    } else if key == "cache-budget-mb"@ {
        match whole_number(value) {
            Some(mb) => Ok(Settings { cache_budget_mb: mb, ..settings }),
            None => Err("cache-budget-mb must be megabytes"@),
        }
    } else if key == "bind"@ {
        match binding(value) {
            Some((k, action)) => Ok(
                Settings { binds: settings.binds.insert(k, action), ..settings },
            ),
            None => Err("bind needs `<key> <action>`"@),
        }
    } else {
        Err("unknown option"@)
    }
}

/// What one line does to the settings, or why it is skipped.
pub open spec fn read_line(
    settings: Settings,
    line: Seq<char>,
    reading: Option<Real>,
) -> Result<Settings, Seq<char>> {
    match content(line) {
        Content::Nothing => Ok(settings),
        Content::Malformed => Err("expected key=value"@),
        Content::Option { key, value } => assigned(settings, key, value, reading),
    }
}

/// The decimal number that line `at` spells, where one was read.
pub open spec fn reading_at(readings: Seq<Option<Real>>, at: int) -> Option<Real> {
    if at < readings.len() {
        readings[at]
    } else {
        None
    }
}

/// What the first `count` lines of a configuration say, and the complaints about them.
pub open spec fn read_lines(
    all: Seq<Seq<char>>,
    readings: Seq<Option<Real>>,
    count: nat,
) -> (Settings, Seq<Complaint>)
    decreases count,
{
    if count == 0 {
        (default_settings(), Seq::empty())
    } else {
        let at = (count - 1) as nat;
        let (settings, list) = read_lines(all, readings, at);
        match read_line(settings, all[at as int], reading_at(readings, at as int)) {
            Ok(next) => (next, list),
            Err(message) => (
                settings,
                list.push(Complaint { line: count as int, text: all[at as int], message }),
            ),
        }
    }
}

/// A line that cannot be read leaves every setting as it was.
pub proof fn skipped_lines_change_nothing(
    all: Seq<Seq<char>>,
    readings: Seq<Option<Real>>,
    count: nat,
)
    requires
        count < all.len(),
        read_line(
            read_lines(all, readings, count).0,
            all[count as int],
            reading_at(readings, count as int),
        ) is Err,
    ensures
        read_lines(all, readings, count + 1).0 == read_lines(all, readings, count).0,
        read_lines(all, readings, count + 1).1.len() == read_lines(all, readings, count).1.len()
            + 1,
{
}

/// A configuration says the same with a line that cannot be read and without it.
pub proof fn skipped_lines_can_be_left_out(
    all: Seq<Seq<char>>,
    readings: Seq<Option<Real>>,
    at: int,
    count: nat,
)
    requires
        0 <= at < count <= all.len(),
        readings.len() == all.len(),
        read_line(read_lines(all, readings, at as nat).0, all[at], readings[at]) is Err,
    ensures
        read_lines(all, readings, count).0 == read_lines(
            all.remove(at),
            readings.remove(at),
            (count - 1) as nat,
        ).0,
    decreases count,
{
    if count - 1 == at {
        same_start(all, all.remove(at), readings, readings.remove(at), at as nat);
    } else {
        skipped_lines_can_be_left_out(all, readings, at, (count - 1) as nat);
        assert(all.remove(at)[count - 2] == all[count - 1]);
        assert(readings.remove(at)[count - 2] == readings[count - 1]);
    }
}

/// What the first lines say does not depend on those that follow.
proof fn same_start(
    left: Seq<Seq<char>>,
    right: Seq<Seq<char>>,
    left_readings: Seq<Option<Real>>,
    right_readings: Seq<Option<Real>>,
    count: nat,
)
    requires
        count <= left.len(),
        count <= right.len(),
        forall|i: int| 0 <= i < count ==> left[i] == right[i],
        forall|i: int|
            0 <= i < count ==> reading_at(left_readings, i) == reading_at(right_readings, i),
    ensures
        read_lines(left, left_readings, count) == read_lines(right, right_readings, count),
    decreases count,
{
    if count > 0 {
        same_start(left, right, left_readings, right_readings, (count - 1) as nat);
        assert(left[count - 1] == right[count - 1]);
        assert(reading_at(left_readings, count - 1) == reading_at(right_readings, count - 1));
    }
}

/// The volume that a configuration ends up with is always a percentage from 0
/// to 150, and its overlay timeout is never negative, whatever the file says.
pub proof fn settings_stay_in_range(
    all: Seq<Seq<char>>,
    readings: Seq<Option<Real>>,
    count: nat,
)
    requires
        count <= all.len(),
    ensures
        read_lines(all, readings, count).0.volume.is_at_least(Real { bits: ZERO }),
        (Real { bits: HUNDRED_AND_FIFTY }).is_at_least(read_lines(all, readings, count).0.volume),
        read_lines(all, readings, count).0.overlay_timeout.is_at_least(Real { bits: ZERO }),
    decreases count,
{
    if count > 0 {
        settings_stay_in_range(all, readings, (count - 1) as nat);
    }
}

/// A later `bind` of a key replaces an earlier one.
pub proof fn later_bind_wins(
    settings: Settings,
    first: Seq<char>,
    second: Seq<char>,
    reading: Option<Real>,
)
    requires
        match (binding(first), binding(second)) {
            (Some((a, _)), Some((b, _))) => a == b,
            _ => false,
        },
    ensures
        assigned(settings, "bind"@, first, reading) matches Ok(once) && assigned(
            once,
            "bind"@,
            second,
            reading,
        ) == assigned(settings, "bind"@, second, reading),
{
    bind_is_no_other_key();
    if let (Some((key, old_action)), Some((_, action))) = (binding(first), binding(second)) {
        assert(settings.binds.insert(key, old_action).insert(key, action)
            =~= settings.binds.insert(key, action));
    }
}

proof fn bind_is_no_other_key()
    ensures
        "bind"@ != "background"@,
        "bind"@ != "sort"@,
        "bind"@ != "sort-reverse"@,
        "bind"@ != "loop"@,
        "bind"@ != "start-fullscreen"@,
        "bind"@ != "volume"@,
        "bind"@ != "wrap"@,
        "bind"@ != "fit"@,
        "bind"@ != "overlay-timeout"@,
        "bind"@ != "hide-cursor"@,
        "bind"@ != "cache-budget-mb"@,
{
    reveal_strlit("bind");
    reveal_strlit("background");
    reveal_strlit("sort");
    reveal_strlit("sort-reverse");
    reveal_strlit("loop");
    reveal_strlit("start-fullscreen");
    reveal_strlit("volume");
    reveal_strlit("wrap");
    reveal_strlit("fit");
    reveal_strlit("overlay-timeout");
    reveal_strlit("hide-cursor");
    reveal_strlit("cache-budget-mb");
    assert("bind"@.len() == 4);
    assert("background"@.len() == 10);
    assert("bind"@[0] == 'b');
    assert("sort"@[0] == 's');
    assert("loop"@[0] == 'l');
    assert("wrap"@[0] == 'w');
}

impl Config {
    /// Key bindings are kept in order.
    pub open spec fn wf(self) -> bool {
        self.binds.wf()
    }

    pub open spec fn settings(self) -> Settings {
        Settings {
            background: self.background@,
            sort: self.sort,
            wrap: self.wrap,
            loop_video: self.loop_video,
            start_fullscreen: self.start_fullscreen,
            volume: self.volume,
            fit: self.fit,
            overlay_timeout: self.overlay_timeout,
            hide_cursor: self.hide_cursor,
            cache_budget_mb: self.cache_budget_mb,
            binds: self.binds@.map_values(|action: String| action@),
        }
    }

    /// Reads a configuration. `readings` holds, for each line, the decimal number
    /// that its value spells, as far as `decimal_requests` asked for one. Returns
    /// the lines that were skipped beside the configuration.
    pub fn parse(text: &str, readings: &Vec<Option<Real>>) -> (result: (Config, Vec<Warning>))
        ensures
            result.0.wf(),
            result.0.settings() == read_lines(
                lines(text@),
                readings@,
                lines(text@).len(),
            ).0,
            complaints(result.1@) == read_lines(lines(text@), readings@, lines(text@).len()).1,
    {
        let mut config = Config::default();
        let mut warnings: Vec<Warning> = Vec::new();
        let chars = chars_of(text);
        let all = lines_of(chars.as_slice());
        assert(complaints(warnings@) =~= Seq::<Complaint>::empty());
        let mut at: usize = 0;
        while at < all.len()
            invariant
                at <= all@.len(),
                runs(all@) == lines(text@),
                config.wf(),
                config.settings() == read_lines(lines(text@), readings@, at as nat).0,
                complaints(warnings@) == read_lines(lines(text@), readings@, at as nat).1,
            decreases all@.len() - at,
        {
            let reading = if at < readings.len() {
                readings[at]
            } else {
                None
            };
            assert(runs(all@)[at as int] == all@[at as int]@);
            let ghost before = warnings@;
            match config.read(all[at].as_slice(), reading) {
                Some(message) => {
                    let warning = Warning {
                        line: at as u64 + 1,
                        text: text_of(all[at].as_slice()),
                        message,
                    };
                    warnings.push(warning);
                    assert(complaints(warnings@) =~= complaints(before).push(warning@));
                },
                None => {},
            }
            at = at + 1;
        }
        (config, warnings)
    }

    /// Takes one line in; what is returned says why the line was skipped.
    fn read(&mut self, line: &[char], reading: Option<Real>) -> (result: Option<String>)
        requires
            old(self).wf(),
        ensures
            final(self).wf(),
            match result {
                Some(message) => final(self).settings() == old(self).settings() && read_line(
                    old(self).settings(),
                    line@,
                    reading,
                ) == Err::<Settings, Seq<char>>(message@),
                None => read_line(old(self).settings(), line@, reading) == Ok::<
                    Settings,
                    Seq<char>,
                >(final(self).settings()),
            },
    {
        let text = trim(line);
        if text.len() == 0 || text[0] == '#' {
            return None;
        }
        match split_at_char(text.as_slice(), '=') {
            Some((key, value)) => {
                let key = trim(key.as_slice());
                let value = trim(value.as_slice());
                self.assign(key.as_slice(), value.as_slice(), reading)
            },
            None => Some("expected key=value".to_owned()),
        }
    }

    fn assign(&mut self, key: &[char], value: &[char], reading: Option<Real>) -> (result: Option<
        String,
    >)
        requires
            old(self).wf(),
        ensures
            final(self).wf(),
            match result {
                Some(message) => final(self).settings() == old(self).settings() && assigned(
                    old(self).settings(),
                    key@,
                    value@,
                    reading,
                ) == Err::<Settings, Seq<char>>(message@),
                None => assigned(old(self).settings(), key@, value@, reading) == Ok::<
                    Settings,
                    Seq<char>,
                >(final(self).settings()),
            },
    {
        if is_word(key, "background") {
            self.background = text_of(value);
            None
        } else if is_word(key, "sort") {
            if is_word(value, "name") {
                self.sort.order = SortOrder::Name;
                None
            } else if is_word(value, "date") {
                self.sort.order = SortOrder::Date;
                None
            } else {
                Some("sort must be name|date".to_owned())
            }
        } else if is_word(key, "sort-reverse") {
            match parse_bool(value) {
                Some(b) => {
                    self.sort.reverse = b;
                    None
                },
                None => Some("sort-reverse must be yes|no".to_owned()),
            }
        } else if is_word(key, "loop") {
            match parse_bool(value) {
                Some(b) => {
                    self.loop_video = b;
                    None
                },
                None => Some("loop must be yes|no".to_owned()),
            }
        } else if is_word(key, "start-fullscreen") {
            match parse_bool(value) {
                Some(b) => {
                    self.start_fullscreen = b;
                    None
                },
                None => Some("start-fullscreen must be yes|no".to_owned()),
            }
        } else if is_word(key, "volume") {
            let low = Real::new(ZERO);
            let high = Real::new(HUNDRED_AND_FIFTY);
            match reading {
                Some(v) => if v.at_least(low) && high.at_least(v) {
                    self.volume = v;
                    None
                } else {
                    Some("volume must be a percentage, 0-150".to_owned())
                },
                None => Some("volume must be a percentage, 0-150".to_owned()),
            }
        } else if is_word(key, "wrap") {
            match parse_bool(value) {
                Some(b) => {
                    self.wrap = b;
                    None
                },
                None => Some("wrap must be yes|no".to_owned()),
            }
        } else if is_word(key, "fit") {
            if is_word(value, "fit") {
                self.fit = FitMode::Fit;
                None
            } else if is_word(value, "actual") {
                self.fit = FitMode::Actual;
                None
            } else {
                Some("fit must be fit|actual".to_owned())
            }
        } else if is_word(key, "overlay-timeout") {
            let low = Real::new(ZERO);
            match reading {
                Some(t) => if t.at_least(low) {
                    self.overlay_timeout = t;
                    None
                } else {
                    Some("overlay-timeout must be seconds".to_owned())
                },
                None => Some("overlay-timeout must be seconds".to_owned()),
            }
        } else if is_word(key, "hide-cursor") {
            match parse_bool(value) {
                Some(b) => {
                    self.hide_cursor = b;
                    None
                },
                None => Some("hide-cursor must be yes|no".to_owned()),
            }
        } else if is_word(key, "cache-budget-mb") {
            match parse_whole(value) {
                Some(mb) => {
                    self.cache_budget_mb = mb;
                    None
                },
                None => Some("cache-budget-mb must be megabytes".to_owned()),
            }
        } else if is_word(key, "bind") {
            match parse_binding(value) {
                Some((k, action)) => {
                    let ghost before = self.binds@;
                    let ghost name = k@;
                    let ghost what = action;
                    self.binds.insert(k, action);
                    assert(self.binds@.map_values(|action: String| action@) =~= before.map_values(
                        |action: String| action@,
                    ).insert(name, what@));
                    None
                },
                None => Some("bind needs `<key> <action>`".to_owned()),
            }
        } else {
            Some("unknown option".to_owned())
        }
    }
}

impl Default for Config {
    fn default() -> (result: Self)
        ensures
            result.wf(),
            result.settings() == default_settings(),
    {
        let result = Config {
            background: "#121212".to_owned(),
            sort: Sort { order: SortOrder::Name, reverse: false },
            wrap: false,
            loop_video: true,
            start_fullscreen: false,
            volume: Real::new(HUNDRED),
            fit: FitMode::Fit,
            overlay_timeout: Real::new(TWO),
            hide_cursor: true,
            cache_budget_mb: 256,
            binds: KeyMap::new(),
        };
        assert(result.settings().binds =~= Map::<Seq<char>, Seq<char>>::empty());
        result
    }
}

impl Warning {
    /// The line to print for a skipped line of the file `origin`.
    pub fn describe(&self, origin: &str) -> (result: String)
        ensures
            result@ == "open-mpv: "@ + origin@ + ":"@ + decimal_digits(self.line as nat)
                + ": ignoring `"@ + self.text@ + "`: "@ + self.message@,
    {
        let mut result = "open-mpv: ".to_owned();
        result.append(origin);
        result.append(":");
        push_decimal(&mut result, self.line);
        result.append(": ignoring `");
        result.append(self.text.as_str());
        result.append("`: ");
        result.append(self.message.as_str());
        result
    }
}

/// For each line of a configuration the text that it asks to have read as a
/// decimal number.
pub fn decimal_requests(text: &str) -> (result: Vec<Option<String>>)
    ensures
        result@.len() == lines(text@).len(),
        forall|i: int|
            0 <= i < result@.len() ==> match #[trigger] result@[i] {
                Some(asked) => decimal_request(lines(text@)[i]) == Some(asked@),
                None => decimal_request(lines(text@)[i]) is None,
            },
{
    let chars = chars_of(text);
    let all = lines_of(chars.as_slice());
    let mut result: Vec<Option<String>> = Vec::new();
    for at in 0..all.len()
        invariant
            runs(all@) == lines(text@),
            result@.len() == at,
            forall|i: int|
                0 <= i < at ==> match #[trigger] result@[i] {
                    Some(asked) => decimal_request(lines(text@)[i]) == Some(asked@),
                    None => decimal_request(lines(text@)[i]) is None,
                },
    {
        assert(runs(all@)[at as int] == all@[at as int]@);
        result.push(requested_decimal(all[at].as_slice()));
    }
    result
}

fn requested_decimal(line: &[char]) -> (result: Option<String>)
    ensures
        match result {
            Some(asked) => decimal_request(line@) == Some(asked@),
            None => decimal_request(line@) is None,
        },
{
    let text = trim(line);
    if text.len() == 0 || text[0] == '#' {
        return None;
    }
    match split_at_char(text.as_slice(), '=') {
        Some((key, value)) => {
            let key = trim(key.as_slice());
            if is_word(key.as_slice(), "volume") || is_word(key.as_slice(), "overlay-timeout") {
                let value = trim(value.as_slice());
                Some(text_of(value.as_slice()))
            } else {
                None
            }
        },
        None => None,
    }
}

/// Whether characters are those of a word.
fn is_word(text: &[char], word: &str) -> (result: bool)
    ensures
        result == (text@ == word@),
{
    let chars = chars_of(word);
    same_chars(text, chars.as_slice())
}

fn parse_bool(value: &[char]) -> (result: Option<bool>)
    ensures
        result == bool_value(value@),
{
    if is_word(value, "yes") || is_word(value, "true") || is_word(value, "on") {
        Some(true)
    } else if is_word(value, "no") || is_word(value, "false") || is_word(value, "off") {
        Some(false)
    } else {
        None
    }
}

proof fn longer_digits_are_larger(digits: Seq<char>, count: int)
    requires
        all_digits(digits),
        0 <= count <= digits.len(),
    ensures
        0 <= digits_value(digits.take(count)) <= digits_value(digits),
    decreases digits.len(),
{
    if count == digits.len() {
        assert(digits.take(count) == digits);
        if digits.len() > 0 {
            longer_digits_are_larger(digits.drop_last(), count - 1);
            assert(digits.last() == digits[digits.len() - 1]);
        }
    } else {
        longer_digits_are_larger(digits.drop_last(), count);
        assert(digits.drop_last().take(count) == digits.take(count));
        assert(digits.last() == digits[digits.len() - 1]);
    }
}

fn parse_whole(value: &[char]) -> (result: Option<u32>)
    ensures
        result == whole_number(value@),
{
    let start: usize = if value.len() > 0 && value[0] == '+' {
        1
    } else {
        0
    };
    let ghost digits = if start == 1 {
        value@.skip(1)
    } else {
        value@
    };
    assert(digits =~= value@.skip(start as int));
    if start == value.len() {
        return None;
    }
    let mut number: u32 = 0;
    let mut at: usize = start;
    while at < value.len()
        invariant
            start <= at <= value@.len(),
            digits == value@.skip(start as int),
            digits.len() > 0,
            whole_number(value@) == (if all_digits(digits) && digits_value(digits) <= u32::MAX {
                Some(digits_value(digits) as u32)
            } else {
                None
            }),
            all_digits(digits.take(at - start)),
            number as int == digits_value(digits.take(at - start)),
        decreases value@.len() - at,
    {
        let c = value[at];
        let ghost next = digits.take(at - start + 1);
        assert(digits[at - start] == c);
        if c < '0' || c > '9' {
            return None;
        }
        let digit: u32 = c as u32 - 48;
        proof {
            assert(next.drop_last() == digits.take(at - start));
            assert(next.last() == c);
            assert forall|i: int| 0 <= i < next.len() implies '0' <= #[trigger] next[i] && next[i]
                <= '9' by {
                if i < at - start {
                    assert(next[i] == digits.take(at - start)[i]);
                }
            }
        }
        if number > (u32::MAX - digit) / 10 {
            proof {
                assert(digits_value(next) > u32::MAX);
                if all_digits(digits) {
                    longer_digits_are_larger(digits, at - start + 1);
                }
            }
            return None;
        }
        number = number * 10 + digit;
        at = at + 1;
    }
    assert(digits.take(at - start) == digits);
    Some(number)
}

fn parse_binding(value: &[char]) -> (result: Option<(String, String)>)
    ensures
        match result {
            Some(pair) => binding(value@) == Some((pair.0@, pair.1@)),
            None => binding(value@) is None,
        },
{
    match split_at_char(value, ' ') {
        Some((key, action)) => {
            let action = trim(action.as_slice());
            if key.len() > 0 && action.len() > 0 {
                Some((text_of(key.as_slice()), text_of(action.as_slice())))
            } else {
                None
            }
        },
        None => None,
    }
}

/// Extensions of images.
pub open spec fn image_extensions() -> Seq<Seq<char>> {
    seq![
        "jpg"@, "jpeg"@, "png"@, "apng"@, "webp"@, "avif"@, "avifs"@, "bmp"@, "gif"@, "svg"@, "svgz"@, "heic"@,
        "heif"@, "hif"@, "jxl"@, "tif"@, "tiff"@, "jp2"@, "jpg2"@, "j2c"@, "jpc"@, "j2k"@, "ico"@, "cur"@, "tga"@,
        "qoi"@, "exr"@, "dds"@, "pnm"@, "pbm"@, "pgm"@, "ppm"@, "xbm"@, "xpm"@,
    ]
}

/// Extensions of video containers.
pub open spec fn video_extensions() -> Seq<Seq<char>> {
    seq!["mp4"@, "m4v"@, "mkv"@, "webm"@, "mov"@, "avi"@]
}

/// Extensions of subtitle files that can be attached to a video.
pub open spec fn subtitle_extensions() -> Seq<Seq<char>> {
    seq!["srt"@, "vtt"@]
}

/// The views of a list of strings.
pub open spec fn words(list: Seq<&'static str>) -> Seq<Seq<char>> {
    Seq::new(list.len(), |i: int| list[i]@)
}

/// The image extensions in their order.
pub fn image_extension_list() -> (result: Vec<&'static str>)
    ensures
        words(result@) == image_extensions(),
{
    let list = vec![
        "jpg", "jpeg", "png", "apng", "webp", "avif", "avifs", "bmp", "gif", "svg", "svgz", "heic",
        "heif", "hif", "jxl", "tif", "tiff", "jp2", "jpg2", "j2c", "jpc", "j2k", "ico", "cur", "tga",
        "qoi", "exr", "dds", "pnm", "pbm", "pgm", "ppm", "xbm", "xpm",
    ];
    assert(words(list@) =~= image_extensions());
    list
}

/// The video extensions in their order.
pub fn video_extension_list() -> (result: Vec<&'static str>)
    ensures
        words(result@) == video_extensions(),
{
    let list = vec!["mp4", "m4v", "mkv", "webm", "mov", "avi"];
    assert(words(list@) =~= video_extensions());
    list
}

/// The subtitle extensions in their order.
pub fn subtitle_extension_list() -> (result: Vec<&'static str>)
    ensures
        words(result@) == subtitle_extensions(),
{
    let list = vec!["srt", "vtt"];
    assert(words(list@) =~= subtitle_extensions());
    list
}

pub open spec fn lower_byte(byte: u8) -> u8 {
    if 65 <= byte <= 90 {
        (byte + 32) as u8
    } else {
        byte
    }
}

/// Bytes with the ASCII capitals in lower case.
pub open spec fn lower_bytes(bytes: Seq<u8>) -> Seq<u8> {
    Seq::new(bytes.len(), |i: int| lower_byte(bytes[i]))
}

/// The extension of a path with its ASCII capitals in lower case.
pub open spec fn lower_extension(path: Seq<u8>) -> Option<Seq<u8>> {
    match extension(path) {
        Some(text) => Some(lower_bytes(text)),
        None => None,
    }
}

/// Whether a text is one of a list of words.
pub open spec fn among(bytes: Seq<u8>, list: Seq<Seq<char>>) -> bool {
    exists|i: int| 0 <= i < list.len() && spells(bytes, #[trigger] list[i])
}

pub open spec fn has_extension(path: Seq<u8>, list: Seq<Seq<char>>) -> bool {
    lower_extension(path) matches Some(text) && among(text, list)
}

/// Whether a path is tried as an image.
pub open spec fn image_path(path: Seq<u8>) -> bool {
    has_extension(path, image_extensions())
}

/// Whether a path is tried as a video.
pub open spec fn video_path(path: Seq<u8>) -> bool {
    has_extension(path, video_extensions())
}

/// Whether a path is a subtitle file.
pub open spec fn subtitle_path(path: Seq<u8>) -> bool {
    has_extension(path, subtitle_extensions())
}

/// Whether a path has an extension that is opened at all.
pub open spec fn supported_path(path: Seq<u8>) -> bool {
    image_path(path) || video_path(path)
}

/// The extension of a path in lower case.
pub fn lowercase_ext(path: &[u8]) -> (result: Option<Vec<u8>>)
    ensures
        match result {
            Some(text) => lower_extension(path@) == Some(text@),
            None => lower_extension(path@) is None,
        },
{
    match extension_of(path) {
        Some(text) => {
            let mut lower: Vec<u8> = Vec::new();
            for i in 0..text.len()
                invariant
                    lower@ == lower_bytes(text@).take(i as int),
            {
                let byte: u8 = text[i];
                if 65 <= byte && byte <= 90 {
                    lower.push(byte + 32);
                } else {
                    lower.push(byte);
                }
                assert(lower@ =~= lower_bytes(text@).take(i + 1));
            }
            assert(lower@ =~= lower_bytes(text@));
            Some(lower)
        },
        None => None,
    }
}

/// Whether bytes are one of the listed words.
pub fn one_of(bytes: &[u8], list: &Vec<&'static str>) -> (result: bool)
    ensures
        result == among(bytes@, words(list@)),
{
    for i in 0..list.len()
        invariant
            forall|j: int| 0 <= j < i ==> !spells(bytes@, #[trigger] words(list@)[j]),
    {
        assert(words(list@)[i as int] == list@[i as int]@);
        if bytes_spell(bytes, list[i]) {
            return true;
        }
    }
    false
}

/// Whether a path has an extension that is opened: an image or a video.
pub fn is_supported(path: &[u8]) -> (result: bool)
    ensures
        result == supported_path(path@),
{
    is_image(path) || is_video(path)
}

pub fn is_image(path: &[u8]) -> (result: bool)
    ensures
        result == image_path(path@),
{
    match lowercase_ext(path) {
        Some(text) => one_of(text.as_slice(), &image_extension_list()),
        None => false,
    }
}

pub fn is_video(path: &[u8]) -> (result: bool)
    ensures
        result == video_path(path@),
{
    match lowercase_ext(path) {
        Some(text) => one_of(text.as_slice(), &video_extension_list()),
        None => false,
    }
}

pub fn is_subtitle(path: &[u8]) -> (result: bool)
    ensures
        result == subtitle_path(path@),
{
    match lowercase_ext(path) {
        Some(text) => one_of(text.as_slice(), &subtitle_extension_list()),
        None => false,
    }
}

/// The keys of the configuration, told apart by length and first letter.
proof fn keys_told_apart()
    ensures
        "background"@.len() == 10,
        "background"@[0] == 'b',
        "sort"@.len() == 4,
        "sort"@[0] == 's',
        "sort-reverse"@.len() == 12,
        "sort-reverse"@[0] == 's',
        "loop"@.len() == 4,
        "loop"@[0] == 'l',
        "start-fullscreen"@.len() == 16,
        "start-fullscreen"@[0] == 's',
        "volume"@.len() == 6,
        "volume"@[0] == 'v',
        "wrap"@.len() == 4,
        "wrap"@[0] == 'w',
        "fit"@.len() == 3,
        "fit"@[0] == 'f',
        "overlay-timeout"@.len() == 15,
        "overlay-timeout"@[0] == 'o',
        "hide-cursor"@.len() == 11,
        "hide-cursor"@[0] == 'h',
        "cache-budget-mb"@.len() == 15,
        "cache-budget-mb"@[0] == 'c',
        "bind"@.len() == 4,
        "bind"@[0] == 'b',
{
    reveal_strlit("background");
    reveal_strlit("sort");
    reveal_strlit("sort-reverse");
    reveal_strlit("loop");
    reveal_strlit("start-fullscreen");
    reveal_strlit("volume");
    reveal_strlit("wrap");
    reveal_strlit("fit");
    reveal_strlit("overlay-timeout");
    reveal_strlit("hide-cursor");
    reveal_strlit("cache-budget-mb");
    reveal_strlit("bind");
}

proof fn words_told_apart()
    ensures
        "name"@.len() == 4,
        "name"@[0] == 'n',
        "date"@.len() == 4,
        "date"@[0] == 'd',
        "fit"@.len() == 3,
        "fit"@[0] == 'f',
        "actual"@.len() == 6,
        "actual"@[0] == 'a',
        "yes"@.len() == 3,
        "yes"@[0] == 'y',
        "true"@.len() == 4,
        "true"@[0] == 't',
        "on"@.len() == 2,
        "on"@[0] == 'o',
        "no"@.len() == 2,
        "no"@[0] == 'n',
        "false"@.len() == 5,
        "false"@[0] == 'f',
        "off"@.len() == 3,
        "off"@[0] == 'o',
        "on"@[1] == 'n',
        "no"@[1] == 'o',
{
    reveal_strlit("name");
    reveal_strlit("date");
    reveal_strlit("fit");
    reveal_strlit("actual");
    reveal_strlit("yes");
    reveal_strlit("true");
    reveal_strlit("on");
    reveal_strlit("no");
    reveal_strlit("false");
    reveal_strlit("off");
}

/// A word stands for yes or no, or for neither: `yes`, `true` and `on` for yes, `no`,
/// `false` and `off` for no, and no word for both.
pub proof fn words_mean_yes_or_no(word: Seq<char>)
    ensures
        bool_value("yes"@) == Some(true),
        bool_value("true"@) == Some(true),
        bool_value("on"@) == Some(true),
        bool_value("no"@) == Some(false),
        bool_value("false"@) == Some(false),
        bool_value("off"@) == Some(false),
        word != "yes"@ && word != "true"@ && word != "on"@ && word != "no"@ && word != "false"@
            && word != "off"@ ==> bool_value(word) is None,
{
    words_told_apart();
}

/// After `sort=name` files are in the order of their names and after `sort=date` in that
/// of their dates, whatever the order was before; every other setting stays. Any other
/// value leaves everything.
pub proof fn sort_lines_set_the_order(settings: Settings, value: Seq<char>, reading: Option<Real>)
    ensures
        read_line(settings, "sort=name"@, reading) matches Ok(after) && after.sort.order
            == SortOrder::Name && after == (Settings { sort: after.sort, ..settings })
            && after.sort.reverse == settings.sort.reverse,
        read_line(settings, "sort=date"@, reading) matches Ok(after) && after.sort.order
            == SortOrder::Date && after == (Settings { sort: after.sort, ..settings })
            && after.sort.reverse == settings.sort.reverse,
        assigned(settings, "sort"@, "name"@, reading) == read_line(settings, "sort=name"@, reading),
        assigned(settings, "sort"@, "date"@, reading) == read_line(settings, "sort=date"@, reading),
        value != "name"@ && value != "date"@ ==> assigned(settings, "sort"@, value, reading) is Err,
{
    keys_told_apart();
    words_told_apart();
    reveal_strlit("sort=name");
    reveal_strlit("sort=date");
    reveal_strlit("sort");
    reveal_strlit("name");
    reveal_strlit("date");
    assert("sort=name"@ =~= "sort"@.push('=') + "name"@);
    assert("sort=date"@ =~= "sort"@.push('=') + "date"@);
    plain_lines_are_assignments("sort"@, "name"@);
    plain_lines_are_assignments("sort"@, "date"@);
}

/// A line of a key, an equals sign and a value sets that key to that value.
pub proof fn plain_lines_are_assignments(key: Seq<char>, value: Seq<char>)
    requires
        key.len() > 0,
        key[0] != '#',
        !is_white_space(key[0]),
        !is_white_space(key.last()),
        !key.contains('='),
        value.len() > 0 ==> !is_white_space(value[0]) && !is_white_space(value.last()),
    ensures
        content(key.push('=') + value) == (Content::Option { key, value }),
        forall|settings: Settings, reading: Option<Real>| #[trigger]
            read_line(settings, key.push('=') + value, reading) == assigned(
                settings,
                key,
                value,
                reading,
            ),
{
    let line = key.push('=') + value;
    assert(line[0] == key[0]);
    assert(line.last() == if value.len() > 0 {
        value.last()
    } else {
        '='
    });
    assert(trimmed(line) == line);
    assert forall|i: int| 0 <= i < key.len() implies line[i] != '=' by {
        assert(line[i] == key[i]);
    }
    assert(line[key.len() as int] == '=');
    crate::text::first_position(line, '=', key.len() as int);
    assert(line.take(key.len() as int) =~= key);
    assert(line.skip(key.len() as int + 1) =~= value);
    assert(trimmed(key) == key);
    assert(trimmed(value) == value);
}

/// Empty lines and comments say nothing, and a line without an equals sign is refused.
pub proof fn comments_say_nothing(settings: Settings, line: Seq<char>, reading: Option<Real>)
    requires
        line.len() > 0 ==> !is_white_space(line[0]) && !is_white_space(line.last()),
    ensures
        line.len() == 0 || line[0] == '#' ==> read_line(settings, line, reading) == Ok::<
            Settings,
            Seq<char>,
        >(settings),
        line.len() > 0 && line[0] != '#' && !line.contains('=') ==> read_line(
            settings,
            line,
            reading,
        ) is Err,
{
    assert(trimmed(line) == line);
    if !line.contains('=') {
        crate::text::absent_position(line, '=');
    }
}

/// Each switch is set by its own key and leaves every other setting; a word that is
/// neither yes nor no leaves all.
pub proof fn switches_are_set_by_their_keys(
    settings: Settings,
    value: Seq<char>,
    on: bool,
    reading: Option<Real>,
)
    ensures
        bool_value(value) == Some(on) ==> {
            &&& assigned(settings, "wrap"@, value, reading) == Ok::<Settings, Seq<char>>(
                Settings { wrap: on, ..settings },
            )
            &&& assigned(settings, "loop"@, value, reading) == Ok::<Settings, Seq<char>>(
                Settings { loop_video: on, ..settings },
            )
            &&& assigned(settings, "start-fullscreen"@, value, reading) == Ok::<
                Settings,
                Seq<char>,
            >(Settings { start_fullscreen: on, ..settings })
            &&& assigned(settings, "hide-cursor"@, value, reading) == Ok::<Settings, Seq<char>>(
                Settings { hide_cursor: on, ..settings },
            )
            &&& assigned(settings, "sort-reverse"@, value, reading) == Ok::<Settings, Seq<char>>(
                Settings { sort: Sort { order: settings.sort.order, reverse: on }, ..settings },
            )
        },
        bool_value(value) is None ==> {
            &&& assigned(settings, "wrap"@, value, reading) is Err
            &&& assigned(settings, "loop"@, value, reading) is Err
            &&& assigned(settings, "start-fullscreen"@, value, reading) is Err
            &&& assigned(settings, "hide-cursor"@, value, reading) is Err
            &&& assigned(settings, "sort-reverse"@, value, reading) is Err
        },
{
    keys_told_apart();
}

/// The other settings are set by their keys too, each alone, and refuse what they cannot
/// be: a volume outside 0 to 150, a negative timeout, a budget that is no number.
pub proof fn values_are_set_by_their_keys(
    settings: Settings,
    value: Seq<char>,
    reading: Option<Real>,
)
    ensures
        assigned(settings, "background"@, value, reading) == Ok::<Settings, Seq<char>>(
            Settings { background: value, ..settings },
        ),
        assigned(settings, "fit"@, "fit"@, reading) == Ok::<Settings, Seq<char>>(
            Settings { fit: FitMode::Fit, ..settings },
        ),
        assigned(settings, "fit"@, "actual"@, reading) == Ok::<Settings, Seq<char>>(
            Settings { fit: FitMode::Actual, ..settings },
        ),
        value != "fit"@ && value != "actual"@ ==> assigned(settings, "fit"@, value, reading) is Err,
        reading matches Some(v) ==> (0 <= v.bits <= 0x4062_c000_0000_0000 ==> assigned(
            settings,
            "volume"@,
            value,
            reading,
        ) == Ok::<Settings, Seq<char>>(Settings { volume: v, ..settings })),
        reading matches Some(v) ==> (0x4062_c000_0000_0000 < v.bits && v.bits
            != 0x8000_0000_0000_0000 ==> assigned(settings, "volume"@, value, reading) is Err),
        reading matches Some(v) ==> (0 <= v.bits <= 0x7ff0_0000_0000_0000 ==> assigned(
            settings,
            "overlay-timeout"@,
            value,
            reading,
        ) == Ok::<Settings, Seq<char>>(Settings { overlay_timeout: v, ..settings })),
        reading matches Some(v) ==> (0x7ff0_0000_0000_0000 < v.bits && v.bits
            != 0x8000_0000_0000_0000 ==> assigned(settings, "overlay-timeout"@, value, reading)
            is Err),
        reading is None ==> assigned(settings, "volume"@, value, reading) is Err && assigned(
            settings,
            "overlay-timeout"@,
            value,
            reading,
        ) is Err,
        whole_number(value) matches Some(mb) ==> assigned(
            settings,
            "cache-budget-mb"@,
            value,
            reading,
        ) == Ok::<Settings, Seq<char>>(Settings { cache_budget_mb: mb, ..settings }),
        whole_number(value) is None ==> assigned(settings, "cache-budget-mb"@, value, reading)
            is Err,
{
    keys_told_apart();
    words_told_apart();
}

/// A bind of a key and an action, with a space between, gives the key that action and
/// leaves every other key; without an action it is refused.
pub proof fn binds_name_a_key_and_an_action(
    settings: Settings,
    key: Seq<char>,
    action: Seq<char>,
    reading: Option<Real>,
)
    requires
        key.len() > 0,
        !key.contains(' '),
    ensures
        action.len() > 0 && !is_white_space(action[0]) && !is_white_space(action.last()) ==> assigned(
            settings,
            "bind"@,
            key.push(' ') + action,
            reading,
        ) == Ok::<Settings, Seq<char>>(
            Settings { binds: settings.binds.insert(key, action), ..settings },
        ),
        assigned(settings, "bind"@, key, reading) is Err,
{
    keys_told_apart();
    let value = key.push(' ') + action;
    assert forall|i: int| 0 <= i < key.len() implies value[i] != ' ' by {
        assert(value[i] == key[i]);
    }
    crate::text::first_position(value, ' ', key.len() as int);
    assert(value.take(key.len() as int) =~= key);
    assert(value.skip(key.len() as int + 1) =~= action);
    crate::text::absent_position(key, ' ');
}

/// A key that is none of the known ones is refused.
pub proof fn unknown_keys_are_refused(
    settings: Settings,
    key: Seq<char>,
    value: Seq<char>,
    reading: Option<Real>,
)
    requires
        key != "background"@,
        key != "sort"@,
        key != "sort-reverse"@,
        key != "loop"@,
        key != "start-fullscreen"@,
        key != "volume"@,
        key != "wrap"@,
        key != "fit"@,
        key != "overlay-timeout"@,
        key != "hide-cursor"@,
        key != "cache-budget-mb"@,
        key != "bind"@,
    ensures
        assigned(settings, key, value, reading) is Err,
{
}

/// A whole number is read back from its own digits, with a plus sign in front or without.
pub proof fn whole_numbers_are_read_back(number: u32)
    ensures
        whole_number(decimal_digits(number as nat)) == Some(number),
        whole_number(seq!['+'] + decimal_digits(number as nat)) == Some(number),
{
    digits_spell_the_number(number as nat);
    let digits = decimal_digits(number as nat);
    assert((seq!['+'] + digits).skip(1) =~= digits);
    assert(digits[0] != '+');
}

proof fn digits_spell_the_number(number: nat)
    ensures
        all_digits(decimal_digits(number)),
        decimal_digits(number).len() > 0,
        digits_value(decimal_digits(number)) == number,
    decreases number,
{
    let digits = decimal_digits(number);
    let last = (('0' as int) + (number % 10)) as char;
    assert(last as int == 48 + number % 10);
    if number < 10 {
        assert(digits.drop_last() =~= Seq::<char>::empty());
        assert(digits_value(digits.drop_last()) == 0);
    } else {
        digits_spell_the_number(number / 10);
        assert(digits.drop_last() =~= decimal_digits(number / 10));
    }
}

/// Without a configuration names are sorted from the first to the last, nothing wraps,
/// videos loop at their full volume, the controls fade after two seconds with the
/// pointer, and the cache may hold 256 megabytes.
pub proof fn nothing_configured_is_the_default(readings: Seq<Option<Real>>)
    ensures
        ({
            let settings = read_lines(Seq::empty(), readings, 0).0;
            &&& settings.sort.order == SortOrder::Name && !settings.sort.reverse
            &&& !settings.wrap && settings.loop_video && !settings.start_fullscreen
            &&& settings.volume.bits == 0x4059_0000_0000_0000
            &&& settings.overlay_timeout.bits == 0x4000_0000_0000_0000
            &&& settings.fit == FitMode::Fit
            &&& settings.hide_cursor
            &&& settings.cache_budget_mb == 256
            &&& settings.binds == Map::<Seq<char>, Seq<char>>::empty()
            &&& settings.background == "#121212"@
        }),
{
}

/// Every line is read after the ones before it, and one that is refused is reported with
/// its number and its text.
pub proof fn lines_are_read_in_order(
    all: Seq<Seq<char>>,
    readings: Seq<Option<Real>>,
    count: nat,
    after: Settings,
    why: Seq<char>,
)
    requires
        count < all.len(),
        readings.len() == all.len(),
    ensures
        ({
            let (before, said) = read_lines(all, readings, count);
            let outcome = read_line(before, all[count as int], readings[count as int]);
            &&& outcome == Ok::<Settings, Seq<char>>(after) ==> read_lines(all, readings, count + 1)
                == (after, said)
            &&& outcome == Err::<Settings, Seq<char>>(why) ==> read_lines(all, readings, count + 1)
                == (
                before,
                said.push(
                    Complaint { line: count as int + 1, text: all[count as int], message: why },
                ),
            )
        }),
{
}

/// A file is a video by the extension of a video and an image by that of an image, in
/// whatever case it is written; one without an extension is neither.
pub proof fn extensions_decide(path: Seq<u8>, other: Seq<u8>)
    ensures
        extension(path) is None ==> !image_path(path) && !video_path(path) && !subtitle_path(path),
        extension(path) matches Some(text) && extension(other) matches Some(shouted)
            && text.len() == shouted.len() && (forall|i: int|
            0 <= i < text.len() ==> text[i] == (#[trigger] shouted[i]) || (97 <= text[i] <= 122
                && shouted[i] == text[i] - 32)) ==> (image_path(path) <==> image_path(other)) && (
        video_path(path) <==> video_path(other)) && (subtitle_path(path) <==> subtitle_path(other)),
        supported_path(path) <==> image_path(path) || video_path(path),
{
    if let (Some(text), Some(shouted)) = (extension(path), extension(other)) {
        if text.len() == shouted.len() && (forall|i: int|
            0 <= i < text.len() ==> text[i] == (#[trigger] shouted[i]) || (97 <= text[i] <= 122
                && shouted[i] == text[i] - 32)) {
            assert forall|i: int| 0 <= i < text.len() implies lower_byte(text[i]) == lower_byte(
                shouted[i],
            ) by {
                assert(text[i] == shouted[i] || (97 <= text[i] <= 122 && shouted[i] == text[i]
                    - 32));
            }
            assert(lower_bytes(text) =~= lower_bytes(shouted));
        }
    }
}

/// The extensions that are known: these for videos, these for images and these for
/// subtitles.
pub proof fn known_extensions(path: Seq<u8>, text: Seq<u8>)
    requires
        lower_extension(path) == Some(text),
    ensures
        spells(text, "mp4"@) ==> video_path(path),
        spells(text, "m4v"@) ==> video_path(path),
        spells(text, "mkv"@) ==> video_path(path),
        spells(text, "webm"@) ==> video_path(path),
        spells(text, "mov"@) ==> video_path(path),
        spells(text, "avi"@) ==> video_path(path),
        spells(text, "srt"@) || spells(text, "vtt"@) <==> subtitle_path(path),
        spells(text, "jpg"@) ==> image_path(path),
        spells(text, "jpeg"@) ==> image_path(path),
        spells(text, "png"@) ==> image_path(path),
        spells(text, "apng"@) ==> image_path(path),
        spells(text, "webp"@) ==> image_path(path),
        spells(text, "avif"@) ==> image_path(path),
        spells(text, "avifs"@) ==> image_path(path),
        spells(text, "bmp"@) ==> image_path(path),
        spells(text, "gif"@) ==> image_path(path),
        spells(text, "svg"@) ==> image_path(path),
        spells(text, "svgz"@) ==> image_path(path),
        spells(text, "heic"@) ==> image_path(path),
        spells(text, "heif"@) ==> image_path(path),
        spells(text, "hif"@) ==> image_path(path),
        spells(text, "jxl"@) ==> image_path(path),
        spells(text, "tif"@) ==> image_path(path),
        spells(text, "tiff"@) ==> image_path(path),
        spells(text, "jp2"@) ==> image_path(path),
        spells(text, "jpg2"@) ==> image_path(path),
        spells(text, "j2c"@) ==> image_path(path),
        spells(text, "jpc"@) ==> image_path(path),
        spells(text, "j2k"@) ==> image_path(path),
        spells(text, "ico"@) ==> image_path(path),
        spells(text, "cur"@) ==> image_path(path),
        spells(text, "tga"@) ==> image_path(path),
        spells(text, "qoi"@) ==> image_path(path),
        spells(text, "exr"@) ==> image_path(path),
        spells(text, "dds"@) ==> image_path(path),
        spells(text, "pnm"@) ==> image_path(path),
        spells(text, "pbm"@) ==> image_path(path),
        spells(text, "pgm"@) ==> image_path(path),
        spells(text, "ppm"@) ==> image_path(path),
        spells(text, "xbm"@) ==> image_path(path),
        spells(text, "xpm"@) ==> image_path(path),
{
    let videos = video_extensions();
    let images = image_extensions();
    let subtitles = subtitle_extensions();
    assert(videos[0] == "mp4"@);
    assert(videos[1] == "m4v"@);
    assert(videos[2] == "mkv"@);
    assert(videos[3] == "webm"@);
    assert(videos[4] == "mov"@);
    assert(videos[5] == "avi"@);
    assert(images[0] == "jpg"@);
    assert(images[1] == "jpeg"@);
    assert(images[2] == "png"@);
    assert(images[3] == "apng"@);
    assert(images[4] == "webp"@);
    assert(images[5] == "avif"@);
    assert(images[6] == "avifs"@);
    assert(images[7] == "bmp"@);
    assert(images[8] == "gif"@);
    assert(images[9] == "svg"@);
    assert(images[10] == "svgz"@);
    assert(images[11] == "heic"@);
    assert(images[12] == "heif"@);
    assert(images[13] == "hif"@);
    assert(images[14] == "jxl"@);
    assert(images[15] == "tif"@);
    assert(images[16] == "tiff"@);
    assert(images[17] == "jp2"@);
    assert(images[18] == "jpg2"@);
    assert(images[19] == "j2c"@);
    assert(images[20] == "jpc"@);
    assert(images[21] == "j2k"@);
    assert(images[22] == "ico"@);
    assert(images[23] == "cur"@);
    assert(images[24] == "tga"@);
    assert(images[25] == "qoi"@);
    assert(images[26] == "exr"@);
    assert(images[27] == "dds"@);
    assert(images[28] == "pnm"@);
    assert(images[29] == "pbm"@);
    assert(images[30] == "pgm"@);
    assert(images[31] == "ppm"@);
    assert(images[32] == "xbm"@);
    assert(images[33] == "xpm"@);
    assert(subtitles[0] == "srt"@ && subtitles[1] == "vtt"@);
}

/// No other extension is known.
pub proof fn no_other_extension_is_known(path: Seq<u8>, text: Seq<u8>)
    requires
        lower_extension(path) == Some(text),
    ensures
        video_path(path) ==> spells(text, "mp4"@) || spells(text, "m4v"@) || spells(text, "mkv"@) || spells(text, "webm"@) || spells(text, "mov"@) || spells(text, "avi"@),
        image_path(path) ==> spells(text, "jpg"@) || spells(text, "jpeg"@) || spells(text, "png"@) || spells(text, "apng"@) || spells(text, "webp"@) || spells(text, "avif"@) || spells(text, "avifs"@) || spells(text, "bmp"@) || spells(text, "gif"@) || spells(text, "svg"@) || spells(text, "svgz"@) || spells(text, "heic"@) || spells(text, "heif"@) || spells(text, "hif"@) || spells(text, "jxl"@) || spells(text, "tif"@) || spells(text, "tiff"@) || spells(text, "jp2"@) || spells(text, "jpg2"@) || spells(text, "j2c"@) || spells(text, "jpc"@) || spells(text, "j2k"@) || spells(text, "ico"@) || spells(text, "cur"@) || spells(text, "tga"@) || spells(text, "qoi"@) || spells(text, "exr"@) || spells(text, "dds"@) || spells(text, "pnm"@) || spells(text, "pbm"@) || spells(text, "pgm"@) || spells(text, "ppm"@) || spells(text, "xbm"@) || spells(text, "xpm"@),
{
    let videos = video_extensions();
    let images = image_extensions();
    if video_path(path) {
        let i = choose|i: int| 0 <= i < videos.len() && spells(text, #[trigger] videos[i]);
        assert(videos.len() == 6);
        if i == 0 {
            assert(videos[0] == "mp4"@);
        } else if i == 1 {
            assert(videos[1] == "m4v"@);
        } else if i == 2 {
            assert(videos[2] == "mkv"@);
        } else if i == 3 {
            assert(videos[3] == "webm"@);
        } else if i == 4 {
            assert(videos[4] == "mov"@);
        } else if i == 5 {
            assert(videos[5] == "avi"@);
        }
    }
    if image_path(path) {
        let i = choose|i: int| 0 <= i < images.len() && spells(text, #[trigger] images[i]);
        assert(images.len() == 34);
        if i == 0 {
            assert(images[0] == "jpg"@);
        } else if i == 1 {
            assert(images[1] == "jpeg"@);
        } else if i == 2 {
            assert(images[2] == "png"@);
        } else if i == 3 {
            assert(images[3] == "apng"@);
        } else if i == 4 {
            assert(images[4] == "webp"@);
        } else if i == 5 {
            assert(images[5] == "avif"@);
        } else if i == 6 {
            assert(images[6] == "avifs"@);
        } else if i == 7 {
            assert(images[7] == "bmp"@);
        } else if i == 8 {
            assert(images[8] == "gif"@);
        } else if i == 9 {
            assert(images[9] == "svg"@);
        } else if i == 10 {
            assert(images[10] == "svgz"@);
        } else if i == 11 {
            assert(images[11] == "heic"@);
        } else if i == 12 {
            assert(images[12] == "heif"@);
        } else if i == 13 {
            assert(images[13] == "hif"@);
        } else if i == 14 {
            assert(images[14] == "jxl"@);
        } else if i == 15 {
            assert(images[15] == "tif"@);
        } else if i == 16 {
            assert(images[16] == "tiff"@);
        } else if i == 17 {
            assert(images[17] == "jp2"@);
        } else if i == 18 {
            assert(images[18] == "jpg2"@);
        } else if i == 19 {
            assert(images[19] == "j2c"@);
        } else if i == 20 {
            assert(images[20] == "jpc"@);
        } else if i == 21 {
            assert(images[21] == "j2k"@);
        } else if i == 22 {
            assert(images[22] == "ico"@);
        } else if i == 23 {
            assert(images[23] == "cur"@);
        } else if i == 24 {
            assert(images[24] == "tga"@);
        } else if i == 25 {
            assert(images[25] == "qoi"@);
        } else if i == 26 {
            assert(images[26] == "exr"@);
        } else if i == 27 {
            assert(images[27] == "dds"@);
        } else if i == 28 {
            assert(images[28] == "pnm"@);
        } else if i == 29 {
            assert(images[29] == "pbm"@);
        } else if i == 30 {
            assert(images[30] == "pgm"@);
        } else if i == 31 {
            assert(images[31] == "ppm"@);
        } else if i == 32 {
            assert(images[32] == "xbm"@);
        } else if i == 33 {
            assert(images[33] == "xpm"@);
        }
    }
}

/// Decimal numbers are asked for by the volume and the timeout of the overlay, and by
/// no other option.
pub proof fn decimals_are_asked_for_by_their_keys(line: Seq<char>, key: Seq<char>, value: Seq<char>)
    requires
        content(line) == (Content::Option { key, value }),
    ensures
        key == "volume"@ ==> decimal_request(line) == Some(value),
        key == "overlay-timeout"@ ==> decimal_request(line) == Some(value),
        key != "volume"@ && key != "overlay-timeout"@ ==> decimal_request(line) is None,
{
}

}
