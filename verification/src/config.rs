//! The settings of the daemon and the file format that they come in.
//!
//! A settings file holds one `key = value` pair to a line. Blank lines and
//! lines that start with `#` are skipped, and so is every line that does not
//! make sense: a setting keeps its value until a line gives it a better one.

use vstd::prelude::*;
use vstd::string::*;
use crate::text::{
    all_digits, all_white_space, bool_of, chars_of, decimal, fraction_of, i32_of, is_fraction,
    is_mantissa, is_mantissa_up_to, is_white_space, law_decimal_read_back,
    law_trim_ignores_padding, law_trim_leaves_the_middle, lemma_decimal_chars, parse_bool,
    parse_i32, parse_u64, reads, reads_as_fraction, trim, trim_end, trim_range, trim_start, u64_of,
};

verus! {

/// The settings.
///
/// `tau` and `max_velocity` are fractions. They are kept as they were written.
#[derive(Debug)]
pub struct Config {
    /// Speed without a modifier.
    pub vmax_normal: i32,
    /// Speed with Ctrl.
    pub vmax_fast: i32,
    /// Speed with Shift.
    pub vmax_slow: i32,
    /// How fast the mouse reaches its speed.
    pub tau: String,
    /// Milliseconds.
    pub double_click_delay: u64,
    /// Whether the mouse is steered while NumLock is on, or while it is off.
    pub mousekeys_numlock_on: bool,
    /// Milliseconds.
    pub movement_update_rate: u64,
    /// Seconds.
    pub reconnect_delay: u64,
    /// Bounds the speed along either axis.
    pub max_velocity: String,
    /// Seconds between two scans for keyboards; 0 for no scans.
    pub keyboard_scan_interval: u64,
}

/// What a `Config` says.
#[verifier::ext_equal]
pub struct Settings {
    pub vmax_normal: i32,
    pub vmax_fast: i32,
    pub vmax_slow: i32,
    pub tau: Seq<char>,
    pub double_click_delay: u64,
    pub mousekeys_numlock_on: bool,
    pub movement_update_rate: u64,
    pub reconnect_delay: u64,
    pub max_velocity: Seq<char>,
    pub keyboard_scan_interval: u64,
}

impl View for Config {
    type V = Settings;

    open spec fn view(&self) -> Settings {
        Settings {
            vmax_normal: self.vmax_normal,
            vmax_fast: self.vmax_fast,
            vmax_slow: self.vmax_slow,
            tau: self.tau@,
            double_click_delay: self.double_click_delay,
            mousekeys_numlock_on: self.mousekeys_numlock_on,
            movement_update_rate: self.movement_update_rate,
            reconnect_delay: self.reconnect_delay,
            max_velocity: self.max_velocity@,
            keyboard_scan_interval: self.keyboard_scan_interval,
        }
    }
}

/// What is written in each of the strings.
pub open spec fn texts(strings: Seq<String>) -> Seq<Seq<char>> {
    strings.map_values(|s: String| s@)
}

/// The settings before any file is read.
pub open spec fn default_settings() -> Settings {
    Settings {
        vmax_normal: 10,
        vmax_fast: 30,
        vmax_slow: 1,
        tau: "0.2"@,
        double_click_delay: 25,
        mousekeys_numlock_on: true,
        movement_update_rate: 10,
        reconnect_delay: 2,
        max_velocity: "100.0"@,
        keyboard_scan_interval: 3,
    }
}

/// The only equals sign of `s` stands at `i`.
pub open spec fn sole_equals_sign(s: Seq<char>, i: int) -> bool {
    &&& 0 <= i < s.len()
    &&& s[i] == '='
    &&& forall|j: int| 0 <= j < s.len() && #[trigger] s[j] == '=' ==> j == i
}

/// The key and the value on a line, if it is one of the form `key = value`.
pub open spec fn pair_on(line: Seq<char>) -> Option<(Seq<char>, Seq<char>)> {
    let s = trim(line);
    if s.len() > 0 && s.first() != '#' && exists|i: int| sole_equals_sign(s, i) {
        let i = choose|i: int| sole_equals_sign(s, i);
        Some((trim(s.take(i)), trim(s.skip(i + 1))))
    } else {
        None
    }
}

/// What a text reads as, or `old` if it makes no sense.
pub open spec fn new_or_old<T>(new: Option<T>, old: T) -> T {
    match new {
        Some(value) => value,
        None => old,
    }
}

/// The settings after `key` was given `value`.
pub open spec fn assign(settings: Settings, key: Seq<char>, value: Seq<char>) -> Settings {
    if key == "vmax_normal"@ {
        Settings { vmax_normal: new_or_old(i32_of(value), settings.vmax_normal), ..settings }
    } else if key == "vmax_fast"@ {
        Settings { vmax_fast: new_or_old(i32_of(value), settings.vmax_fast), ..settings }
    } else if key == "vmax_slow"@ {
        Settings { vmax_slow: new_or_old(i32_of(value), settings.vmax_slow), ..settings }
    } else if key == "tau"@ {
        Settings { tau: new_or_old(fraction_of(value), settings.tau), ..settings }
    } else if key == "double_click_delay"@ {
        Settings {
            double_click_delay: new_or_old(u64_of(value), settings.double_click_delay),
            ..settings
        }
    } else if key == "mousekeys_numlock_on"@ {
        Settings {
            mousekeys_numlock_on: new_or_old(bool_of(value), settings.mousekeys_numlock_on),
            ..settings
        }
    } else if key == "movement_update_rate"@ {
        Settings {
            movement_update_rate: new_or_old(u64_of(value), settings.movement_update_rate),
            ..settings
        }
    } else if key == "reconnect_delay"@ {
        Settings { reconnect_delay: new_or_old(u64_of(value), settings.reconnect_delay), ..settings }
    } else if key == "max_velocity"@ {
        Settings {
            max_velocity: new_or_old(fraction_of(value), settings.max_velocity),
            ..settings
        }
    } else if key == "keyboard_scan_interval"@ {
        Settings {
            keyboard_scan_interval: new_or_old(u64_of(value), settings.keyboard_scan_interval),
            ..settings
        }
    } else {
        settings
    }
}

/// The settings after one more line.
pub open spec fn after_line(settings: Settings, line: Seq<char>) -> Settings {
    match pair_on(line) {
        Some((key, value)) => assign(settings, key, value),
        None => settings,
    }
}

/// The settings after some more lines.
pub open spec fn after_lines(settings: Settings, lines: Seq<Seq<char>>) -> Settings
    decreases lines.len(),
{
    if lines.len() == 0 {
        settings
    } else {
        after_line(after_lines(settings, lines.drop_last()), lines.last())
    }
}

impl Default for Config {
    fn default() -> (config: Self)
        ensures
            config@ == default_settings(),
    {
        let config = Config {
            vmax_normal: 10,
            vmax_fast: 30,
            vmax_slow: 1,
            tau: "0.2".to_owned(),
            double_click_delay: 25,
            mousekeys_numlock_on: true,
            movement_update_rate: 10,
            reconnect_delay: 2,
            max_velocity: "100.0".to_owned(),
            keyboard_scan_interval: 3,
        };
        assert(config@ =~= default_settings());
        config
    }
}

/// Where the only equals sign of `chars[from..to]` stands.
fn find_sole_equals_sign(chars: &Vec<char>, from: usize, to: usize) -> (position: Option<usize>)
    requires
        from <= to <= chars.len(),
    ensures
        match position {
            Some(p) => from <= p < to && sole_equals_sign(
                chars@.subrange(from as int, to as int),
                p - from,
            ),
            None => forall|i: int|
                !sole_equals_sign(chars@.subrange(from as int, to as int), i),
        },
{
    let ghost s = chars@.subrange(from as int, to as int);
    let mut found: Option<usize> = None;
    let mut p: usize = from;
    while p < to
        invariant
            from <= p <= to <= chars.len(),
            s == chars@.subrange(from as int, to as int),
            match found {
                Some(q) => from <= q < p && s[q - from] == '=' && forall|j: int|
                    0 <= j < p - from && #[trigger] s[j] == '=' ==> j == q - from,
                None => forall|j: int| 0 <= j < p - from ==> #[trigger] s[j] != '=',
            },
        decreases to - p,
    {
        assert(chars[p as int] == s[p - from]);
        if chars[p] == '=' {
            match found {
                Some(q) => {
                    assert forall|i: int| !sole_equals_sign(s, i) by {
                        assert(s[q - from] == '=' && s[p - from] == '=');
                    }
                    return None;
                },
                None => {
                    found = Some(p);
                },
            }
        }
        p = p + 1;
    }
    found
}

impl Config {
    /// Takes over what `line` says.
    pub fn apply_line(&mut self, line: &str)
        ensures
            final(self)@ == after_line(old(self)@, line@),
    {
        let chars = chars_of(line);
        let (from, to) = trim_range(&chars, 0, chars.len());
        assert(chars@.subrange(0, chars@.len() as int) == line@);
        let ghost s = chars@.subrange(from as int, to as int);
        if from == to || chars[from] == '#' {
            return;
        }
        let equals: usize = match find_sole_equals_sign(&chars, from, to) {
            Some(p) => p,
            None => {
                return;
            },
        };
        let (key_from, key_to) = trim_range(&chars, from, equals);
        let (value_from, value_to) = trim_range(&chars, equals + 1, to);
        let ghost key = chars@.subrange(key_from as int, key_to as int);
        let ghost value = chars@.subrange(value_from as int, value_to as int);
        proof {
            let i = choose|i: int| sole_equals_sign(s, i);
            assert(sole_equals_sign(s, equals - from));
            assert(i == equals - from);
            assert(s.take(i) == chars@.subrange(from as int, equals as int));
            assert(s.skip(i + 1) == chars@.subrange(equals + 1, to as int));
            assert(pair_on(line@) == Some((key, value)));
        }
        if reads(&chars, key_from, key_to, "vmax_normal") {
            if let Some(n) = parse_i32(&chars, value_from, value_to) {
                self.vmax_normal = n;
            }
        } else if reads(&chars, key_from, key_to, "vmax_fast") {
            if let Some(n) = parse_i32(&chars, value_from, value_to) {
                self.vmax_fast = n;
            }
        } else if reads(&chars, key_from, key_to, "vmax_slow") {
            if let Some(n) = parse_i32(&chars, value_from, value_to) {
                self.vmax_slow = n;
            }
        } else if reads(&chars, key_from, key_to, "tau") {
            if reads_as_fraction(&chars, value_from, value_to) {
                self.tau = line.substring_char(value_from, value_to).to_owned();
            }
        } else if reads(&chars, key_from, key_to, "double_click_delay") {
            if let Some(n) = parse_u64(&chars, value_from, value_to) {
                self.double_click_delay = n;
            }
        } else if reads(&chars, key_from, key_to, "mousekeys_numlock_on") {
            if let Some(b) = parse_bool(&chars, value_from, value_to) {
                self.mousekeys_numlock_on = b;
            }
        } else if reads(&chars, key_from, key_to, "movement_update_rate") {
            if let Some(n) = parse_u64(&chars, value_from, value_to) {
                self.movement_update_rate = n;
            }
        } else if reads(&chars, key_from, key_to, "reconnect_delay") {
            if let Some(n) = parse_u64(&chars, value_from, value_to) {
                self.reconnect_delay = n;
            }
        } else if reads(&chars, key_from, key_to, "max_velocity") {
            if reads_as_fraction(&chars, value_from, value_to) {
                self.max_velocity = line.substring_char(value_from, value_to).to_owned();
            }
        } else if reads(&chars, key_from, key_to, "keyboard_scan_interval") {
            if let Some(n) = parse_u64(&chars, value_from, value_to) {
                self.keyboard_scan_interval = n;
            }
        }
    }

    /// The settings that a file with these lines gives.
    pub fn load_from_lines(lines: &Vec<String>) -> (config: Config)
        ensures
            config@ == after_lines(default_settings(), texts(lines@)),
    {
        let mut config = Config::default();
        let mut i: usize = 0;
        while i < lines.len()
            invariant
                i <= lines.len(),
                config@ == after_lines(default_settings(), texts(lines@).take(i as int)),
            decreases lines.len() - i,
        {
            config.apply_line(lines[i].as_str());
            assert(texts(lines@).take(i + 1).drop_last() == texts(lines@).take(i as int));
            i = i + 1;
        }
        assert(texts(lines@).take(i as int) == texts(lines@));
        config
    }

    /// Whether the settings can be worked with. Whether `tau` is outside
    /// `0.0 < tau <= 1.0`, and `max_velocity` at most `0.0`, is for the
    /// caller to find out.
    pub fn validate(&self, tau_out_of_range: bool, max_velocity_not_positive: bool) -> (verdict:
        Result<(), ConfigError>)
        ensures
            verdict == verdict_on(self@, tau_out_of_range, max_velocity_not_positive),
            verdict is Ok <==> self.vmax_normal >= 0 && self.vmax_fast >= 0 && self.vmax_slow >= 0
                && !tau_out_of_range && !max_velocity_not_positive,
    {
        if self.vmax_normal < 0 || self.vmax_fast < 0 || self.vmax_slow < 0 {
            return Err(ConfigError::NegativeVelocity);
        }
        if tau_out_of_range {
            return Err(ConfigError::TauOutOfRange);
        }
        if max_velocity_not_positive {
            return Err(ConfigError::MaxVelocityNotPositive);
        }
        Ok(())
    }

    /// Whether the daemon looks out for other keyboards.
    pub fn scans_keyboards(&self) -> (scans: bool)
        ensures
            scans == (self@.keyboard_scan_interval != 0),
            scans <==> self.keyboard_scan_interval > 0,
    {
        self.keyboard_scan_interval > 0
    }
}

/// The name of the settings file.
pub open spec fn settings_file_name() -> Seq<char> {
    "mousekeys.conf"@
}

/// Where the settings are read from: the file that the user names, or else
/// the one in the directory of the program, as far as that is known.
pub fn settings_path(named: Option<&str>, directory: Option<&str>) -> (path: String)
    ensures
        path@ == match (named, directory) {
            (Some(file), _) => file@,
            (None, Some(dir)) => dir@ + "/"@ + settings_file_name(),
            (None, None) => settings_file_name(),
        },
{
    let mut path = String::new();
    match named {
        Some(file) => {
            path.append(file);
        },
        None => {
            if let Some(dir) = directory {
                path.append(dir);
                path.append("/");
            }
            path.append("mousekeys.conf");
        },
    }
    path
}

/// What is wrong with the settings.
#[derive(Debug, Clone, Copy, PartialEq, Eq, Structural)]
pub enum ConfigError {
    NegativeVelocity,
    TauOutOfRange,
    MaxVelocityNotPositive,
}

/// The first thing that is wrong with the settings, if anything is.
pub open spec fn verdict_on(
    settings: Settings,
    tau_out_of_range: bool,
    max_velocity_not_positive: bool,
) -> Result<(), ConfigError> {
    if settings.vmax_normal < 0 || settings.vmax_fast < 0 || settings.vmax_slow < 0 {
        Err(ConfigError::NegativeVelocity)
    } else if tau_out_of_range {
        Err(ConfigError::TauOutOfRange)
    } else if max_velocity_not_positive {
        Err(ConfigError::MaxVelocityNotPositive)
    } else {
        Ok(())
    }
}

impl ConfigError {
    pub open spec fn wording(self) -> Seq<char> {
        match self {
            ConfigError::NegativeVelocity => "Velocity values must be non-negative"@,
            ConfigError::TauOutOfRange => "Tau must be between 0.0 and 1.0"@,
            ConfigError::MaxVelocityNotPositive => "Max velocity must be positive"@,
        }
    }

    pub fn message(&self) -> (message: &'static str)
        ensures
            message@ == self.wording(),
    {
        match self {
            ConfigError::NegativeVelocity => "Velocity values must be non-negative",
            ConfigError::TauOutOfRange => "Tau must be between 0.0 and 1.0",
            ConfigError::MaxVelocityNotPositive => "Max velocity must be positive",
        }
    }
}

/// The daemon can work with its default settings.
pub proof fn law_defaults_are_valid()
    ensures
        verdict_on(default_settings(), false, false) == Ok::<(), ConfigError>(()),
{
}

/// Settings are as valid without scans for keyboards as with them.
pub proof fn law_no_scans_is_valid(
    settings: Settings,
    interval: u64,
    tau_out_of_range: bool,
    max_velocity_not_positive: bool,
)
    ensures
        verdict_on(
            Settings { keyboard_scan_interval: interval, ..settings },
            tau_out_of_range,
            max_velocity_not_positive,
        ) == verdict_on(settings, tau_out_of_range, max_velocity_not_positive),
{
}

/// Reading a file in two parts, one after the other, is reading it whole.
pub proof fn law_lines_in_two_parts(
    settings: Settings,
    first: Seq<Seq<char>>,
    second: Seq<Seq<char>>,
)
    ensures
        after_lines(settings, first + second) == after_lines(after_lines(settings, first), second),
    decreases second.len(),
{
    if second.len() == 0 {
        assert(first + second == first);
    } else {
        assert((first + second).drop_last() == first + second.drop_last());
        law_lines_in_two_parts(settings, first, second.drop_last());
    }
}

/// Blank lines, comments, and lines without exactly one equals sign change
/// nothing.
pub proof fn law_other_lines_change_nothing(settings: Settings, line: Seq<char>)
    requires
        trim(line).len() == 0 || trim(line).first() == '#' || !exists|i: int|
            sole_equals_sign(trim(line), i),
    ensures
        after_line(settings, line) == settings,
{
}

/// White space before and after a line makes no difference.
pub proof fn law_padding_changes_nothing(
    settings: Settings,
    before: Seq<char>,
    line: Seq<char>,
    after: Seq<char>,
)
    requires
        all_white_space(before),
        all_white_space(after),
    ensures
        after_line(settings, before + line + after) == after_line(settings, line),
{
    law_trim_ignores_padding(before, line, after);
}

/// The keys of settings that are whole numbers with a sign.
pub open spec fn is_speed_key(key: Seq<char>) -> bool {
    key == "vmax_normal"@ || key == "vmax_fast"@ || key == "vmax_slow"@
}

/// The keys of settings that are spans of time.
pub open spec fn is_time_key(key: Seq<char>) -> bool {
    ||| key == "double_click_delay"@
    ||| key == "movement_update_rate"@
    ||| key == "reconnect_delay"@
    ||| key == "keyboard_scan_interval"@
}

/// The keys of settings that are fractions.
pub open spec fn is_fraction_key(key: Seq<char>) -> bool {
    key == "tau"@ || key == "max_velocity"@
}

pub open spec fn is_known_key(key: Seq<char>) -> bool {
    is_speed_key(key) || is_time_key(key) || is_fraction_key(key) || key
        == "mousekeys_numlock_on"@
}

/// The key names a setting, and the value makes sense for it.
pub open spec fn makes_sense(key: Seq<char>, value: Seq<char>) -> bool {
    ||| is_speed_key(key) && i32_of(value) is Some
    ||| is_time_key(key) && u64_of(value) is Some
    ||| is_fraction_key(key) && is_fraction(value)
    ||| key == "mousekeys_numlock_on"@ && bool_of(value) is Some
}

/// The line gives the setting `key` a value that makes sense.
pub open spec fn sets(line: Seq<char>, key: Seq<char>) -> bool {
    pair_on(line) matches Some((k, value)) && k == key && makes_sense(key, value)
}

/// The line gives no setting a value: it is blank, a comment or no pair, or
/// its key or its value makes no sense.
pub open spec fn is_idle(line: Seq<char>) -> bool {
    pair_on(line) matches Some((key, value)) ==> !makes_sense(key, value)
}

/// A key that names no setting is ignored.
pub proof fn law_unknown_key_changes_nothing(settings: Settings, key: Seq<char>, value: Seq<char>)
    requires
        !is_known_key(key),
    ensures
        assign(settings, key, value) == settings,
{
}

proof fn lemma_keys_differ()
    ensures
        "vmax_normal"@.len() == 11,
        "vmax_fast"@.len() == 9,
        "vmax_slow"@.len() == 9,
        "vmax_fast"@[5] == 'f',
        "vmax_slow"@[5] == 's',
        "tau"@.len() == 3,
        "double_click_delay"@.len() == 18,
        "mousekeys_numlock_on"@.len() == 20,
        "movement_update_rate"@.len() == 20,
        "movement_update_rate"@[2] == 'v',
        "mousekeys_numlock_on"@[2] == 'u',
        "reconnect_delay"@.len() == 15,
        "max_velocity"@.len() == 12,
        "keyboard_scan_interval"@.len() == 22,
{
    reveal_strlit("vmax_normal");
    reveal_strlit("vmax_fast");
    reveal_strlit("vmax_slow");
    reveal_strlit("tau");
    reveal_strlit("double_click_delay");
    reveal_strlit("mousekeys_numlock_on");
    reveal_strlit("movement_update_rate");
    reveal_strlit("reconnect_delay");
    reveal_strlit("max_velocity");
    reveal_strlit("keyboard_scan_interval");
}

/// A value that makes no sense for its setting is ignored.
pub proof fn law_senseless_value_changes_nothing(
    settings: Settings,
    key: Seq<char>,
    value: Seq<char>,
)
    requires
        !makes_sense(key, value),
    ensures
        assign(settings, key, value) == settings,
{
    lemma_keys_differ();
}

/// A line that sets nothing can stand anywhere in a file, or be left out.
pub proof fn law_idle_line_anywhere(
    settings: Settings,
    before: Seq<Seq<char>>,
    line: Seq<char>,
    after: Seq<Seq<char>>,
)
    requires
        is_idle(line),
    ensures
        after_lines(settings, before + seq![line] + after) == after_lines(settings, before + after),
{
    law_lines_in_two_parts(settings, before + seq![line], after);
    law_lines_in_two_parts(settings, before, after);
    assert((before + seq![line]).drop_last() == before);
    if let Some((key, value)) = pair_on(line) {
        law_senseless_value_changes_nothing(after_lines(settings, before), key, value);
    }
}

/// Whichever lines of a file set nothing, the file without all of them gives
/// the same settings.
pub proof fn law_idle_lines_can_be_left_out(settings: Settings, lines: Seq<Seq<char>>)
    ensures
        after_lines(settings, lines.filter(|line: Seq<char>| !is_idle(line))) == after_lines(
            settings,
            lines,
        ),
    decreases lines.len(),
{
    reveal(Seq::filter);
    if lines.len() > 0 {
        let front = lines.drop_last();
        let kept = front.filter(|line: Seq<char>| !is_idle(line));
        law_idle_lines_can_be_left_out(settings, front);
        if is_idle(lines.last()) {
            if let Some((key, value)) = pair_on(lines.last()) {
                law_senseless_value_changes_nothing(after_lines(settings, front), key, value);
            }
        } else {
            assert(kept.push(lines.last()).drop_last() == kept);
        }
    }
}

/// The setting `key` is the same in both.
pub open spec fn same_setting(a: Settings, b: Settings, key: Seq<char>) -> bool {
    &&& key == "vmax_normal"@ ==> a.vmax_normal == b.vmax_normal
    &&& key == "vmax_fast"@ ==> a.vmax_fast == b.vmax_fast
    &&& key == "vmax_slow"@ ==> a.vmax_slow == b.vmax_slow
    &&& key == "tau"@ ==> a.tau == b.tau
    &&& key == "double_click_delay"@ ==> a.double_click_delay == b.double_click_delay
    &&& key == "mousekeys_numlock_on"@ ==> a.mousekeys_numlock_on == b.mousekeys_numlock_on
    &&& key == "movement_update_rate"@ ==> a.movement_update_rate == b.movement_update_rate
    &&& key == "reconnect_delay"@ ==> a.reconnect_delay == b.reconnect_delay
    &&& key == "max_velocity"@ ==> a.max_velocity == b.max_velocity
    &&& key == "keyboard_scan_interval"@ ==> a.keyboard_scan_interval == b.keyboard_scan_interval
}

/// The lines that give the setting `key` a value that makes sense, in order.
pub open spec fn lines_for(lines: Seq<Seq<char>>, key: Seq<char>) -> Seq<Seq<char>> {
    lines.filter(|line: Seq<char>| sets(line, key))
}

proof fn lemma_setting_comes_from_its_lines(
    settings: Settings,
    lines: Seq<Seq<char>>,
    key: Seq<char>,
)
    ensures
        same_setting(
            after_lines(settings, lines),
            after_lines(settings, lines_for(lines, key)),
            key,
        ),
    decreases lines.len(),
{
    reveal(Seq::filter);
    lemma_keys_differ();
    if lines.len() > 0 {
        let front = lines.drop_last();
        let line = lines.last();
        lemma_setting_comes_from_its_lines(settings, front, key);
        if sets(line, key) {
            assert(lines_for(lines, key) == lines_for(front, key).push(line));
            assert(lines_for(front, key).push(line).drop_last() == lines_for(front, key));
        } else {
            assert(lines_for(lines, key) == lines_for(front, key));
            if let Some((k, value)) = pair_on(line) {
                if !makes_sense(k, value) {
                    law_senseless_value_changes_nothing(after_lines(settings, front), k, value);
                }
            }
        }
    }
}

/// Two files give the same settings if each setting is given the same values
/// by the same lines, in the same order, however these lines are mixed with
/// those for other settings and with lines that set nothing.
pub proof fn law_files_that_set_the_same(
    settings: Settings,
    a: Seq<Seq<char>>,
    b: Seq<Seq<char>>,
)
    requires
        forall|key: Seq<char>| #[trigger] lines_for(a, key) == lines_for(b, key),
    ensures
        after_lines(settings, a) == after_lines(settings, b),
{
    assert forall|key: Seq<char>| same_setting(
        after_lines(settings, a),
        after_lines(settings, b),
        key,
    ) by {
        assert(lines_for(a, key) == lines_for(b, key));
        lemma_setting_comes_from_its_lines(settings, a, key);
        lemma_setting_comes_from_its_lines(settings, b, key);
    }
    let new = after_lines(settings, a);
    let other = after_lines(settings, b);
    assert(same_setting(new, other, "vmax_normal"@));
    assert(same_setting(new, other, "vmax_fast"@));
    assert(same_setting(new, other, "vmax_slow"@));
    assert(same_setting(new, other, "tau"@));
    assert(same_setting(new, other, "double_click_delay"@));
    assert(same_setting(new, other, "mousekeys_numlock_on"@));
    assert(same_setting(new, other, "movement_update_rate"@));
    assert(same_setting(new, other, "reconnect_delay"@));
    assert(same_setting(new, other, "max_velocity"@));
    assert(same_setting(new, other, "keyboard_scan_interval"@));
    assert(new =~= other);
}

proof fn lemma_lines_for_push(lines: Seq<Seq<char>>, line: Seq<char>, key: Seq<char>)
    ensures
        lines_for(lines.push(line), key) == if sets(line, key) {
            lines_for(lines, key).push(line)
        } else {
            lines_for(lines, key)
        },
{
    reveal(Seq::filter);
    assert(lines.push(line).drop_last() == lines);
}

proof fn lemma_lines_for_pair(one: Seq<char>, other: Seq<char>, key: Seq<char>)
    requires
        !(sets(one, key) && sets(other, key)),
    ensures
        lines_for(seq![one, other], key) == lines_for(seq![other, one], key),
{
    let none = Seq::<Seq<char>>::empty();
    assert(seq![one, other] == none.push(one).push(other));
    assert(seq![other, one] == none.push(other).push(one));
    lemma_lines_for_push(none, one, key);
    lemma_lines_for_push(none, other, key);
    lemma_lines_for_push(none.push(one), other, key);
    lemma_lines_for_push(none.push(other), one, key);
}

/// Two neighbouring lines that do not name the same setting may change places.
pub proof fn law_lines_may_change_places(
    settings: Settings,
    before: Seq<Seq<char>>,
    one: Seq<char>,
    other: Seq<char>,
    after: Seq<Seq<char>>,
)
    requires
        pair_on(one) matches Some((k1, _)) ==> (pair_on(other) matches Some((k2, _)) ==> k1 != k2),
    ensures
        after_lines(settings, before + seq![one, other] + after) == after_lines(
            settings,
            before + seq![other, one] + after,
        ),
{
    let a = before + seq![one, other] + after;
    let b = before + seq![other, one] + after;
    assert forall|key: Seq<char>| #[trigger] lines_for(a, key) == lines_for(b, key) by {
        let pred = |line: Seq<char>| sets(line, key);
        Seq::filter_distributes_over_add(before + seq![one, other], after, pred);
        Seq::filter_distributes_over_add(before + seq![other, one], after, pred);
        Seq::filter_distributes_over_add(before, seq![one, other], pred);
        Seq::filter_distributes_over_add(before, seq![other, one], pred);
        lemma_lines_for_pair(one, other, key);
    }
    law_files_that_set_the_same(settings, a, b);
}

/// Whatever a file says, `tau` and `max_velocity` are written as numbers, if
/// they were so before; as they are by default.
pub proof fn law_fractions_stay_numbers(settings: Settings, lines: Seq<Seq<char>>)
    ensures
        is_fraction(settings.tau) ==> is_fraction(after_lines(settings, lines).tau),
        is_fraction(settings.max_velocity) ==> is_fraction(
            after_lines(settings, lines).max_velocity,
        ),
        is_fraction(default_settings().tau),
        is_fraction(default_settings().max_velocity),
    decreases lines.len(),
{
    lemma_default_fractions();
    if lines.len() > 0 {
        law_fractions_stay_numbers(settings, lines.drop_last());
    }
}

proof fn lemma_default_fractions()
    ensures
        is_fraction("0.2"@),
        is_fraction("100.0"@),
{
    reveal_strlit("0.2");
    reveal_strlit("100.0");
    let tau = "0.2"@;
    assert(tau.take(3) == tau);
    assert(tau[1] == '.' && all_digits(tau.take(1)) && all_digits(tau.skip(2)));
    assert(is_mantissa(tau));
    assert(is_mantissa_up_to(tau, 3));
    let bound = "100.0"@;
    assert(bound.take(5) == bound);
    assert(bound[3] == '.' && all_digits(bound.take(3)) && all_digits(bound.skip(4)));
    assert(is_mantissa(bound));
    assert(is_mantissa_up_to(bound, 5));
}

/// A line changes the setting that it names and no other.
pub proof fn law_a_line_changes_one_setting(settings: Settings, key: Seq<char>, value: Seq<char>)
    ensures
        ({
            let new = assign(settings, key, value);
            &&& key != "vmax_normal"@ ==> new.vmax_normal == settings.vmax_normal
            &&& key != "vmax_fast"@ ==> new.vmax_fast == settings.vmax_fast
            &&& key != "vmax_slow"@ ==> new.vmax_slow == settings.vmax_slow
            &&& key != "tau"@ ==> new.tau == settings.tau
            &&& key != "double_click_delay"@ ==> new.double_click_delay
                == settings.double_click_delay
            &&& key != "mousekeys_numlock_on"@ ==> new.mousekeys_numlock_on
                == settings.mousekeys_numlock_on
            &&& key != "movement_update_rate"@ ==> new.movement_update_rate
                == settings.movement_update_rate
            &&& key != "reconnect_delay"@ ==> new.reconnect_delay == settings.reconnect_delay
            &&& key != "max_velocity"@ ==> new.max_velocity == settings.max_velocity
            &&& key != "keyboard_scan_interval"@ ==> new.keyboard_scan_interval
                == settings.keyboard_scan_interval
        }),
{
}

/// The setting `key` has the value that `value` reads as, if it makes sense.
pub open spec fn is_set_to(settings: Settings, key: Seq<char>, value: Seq<char>) -> bool {
    &&& key == "vmax_normal"@ ==> (i32_of(value) matches Some(n) ==> settings.vmax_normal == n)
    &&& key == "vmax_fast"@ ==> (i32_of(value) matches Some(n) ==> settings.vmax_fast == n)
    &&& key == "vmax_slow"@ ==> (i32_of(value) matches Some(n) ==> settings.vmax_slow == n)
    &&& key == "tau"@ ==> (is_fraction(value) ==> settings.tau == value)
    &&& key == "double_click_delay"@ ==> (u64_of(value) matches Some(n)
        ==> settings.double_click_delay == n)
    &&& key == "mousekeys_numlock_on"@ ==> (bool_of(value) matches Some(b)
        ==> settings.mousekeys_numlock_on == b)
    &&& key == "movement_update_rate"@ ==> (u64_of(value) matches Some(n)
        ==> settings.movement_update_rate == n)
    &&& key == "reconnect_delay"@ ==> (u64_of(value) matches Some(n) ==> settings.reconnect_delay
        == n)
    &&& key == "max_velocity"@ ==> (is_fraction(value) ==> settings.max_velocity == value)
    &&& key == "keyboard_scan_interval"@ ==> (u64_of(value) matches Some(n)
        ==> settings.keyboard_scan_interval == n)
}

proof fn lemma_no_lines_for(lines: Seq<Seq<char>>, key: Seq<char>)
    requires
        forall|i: int| 0 <= i < lines.len() ==> !sets(#[trigger] lines[i], key),
    ensures
        lines_for(lines, key) == Seq::<Seq<char>>::empty(),
    decreases lines.len(),
{
    reveal(Seq::filter);
    if lines.len() > 0 {
        lemma_no_lines_for(lines.drop_last(), key);
    }
}

/// Whatever the other lines say, the last line to give a setting a value that
/// makes sense decides.
pub proof fn law_last_line_decides(
    settings: Settings,
    earlier: Seq<Seq<char>>,
    line: Seq<char>,
    later: Seq<Seq<char>>,
    key: Seq<char>,
    value: Seq<char>,
)
    requires
        pair_on(line) == Some((key, value)),
        forall|i: int| 0 <= i < later.len() ==> !sets(#[trigger] later[i], key),
    ensures
        is_set_to(after_lines(settings, earlier + seq![line] + later), key, value),
{
    lemma_keys_differ();
    let until = earlier + seq![line];
    assert(until.drop_last() == earlier);
    assert(is_set_to(after_lines(settings, until), key, value));
    Seq::filter_distributes_over_add(until, later, |l: Seq<char>| sets(l, key));
    lemma_no_lines_for(later, key);
    assert(lines_for(until, key) + Seq::<Seq<char>>::empty() == lines_for(until, key));
    lemma_setting_comes_from_its_lines(settings, until, key);
    lemma_setting_comes_from_its_lines(settings, until + later, key);
}

/// Settings are what stands in the fields, and texts are what is written in
/// the strings, one by one.
pub proof fn law_settings_are_the_fields(config: Config, strings: Seq<String>, i: int)
    ensures
        config@.vmax_normal == config.vmax_normal,
        config@.vmax_fast == config.vmax_fast,
        config@.vmax_slow == config.vmax_slow,
        config@.tau == config.tau@,
        config@.double_click_delay == config.double_click_delay,
        config@.mousekeys_numlock_on == config.mousekeys_numlock_on,
        config@.movement_update_rate == config.movement_update_rate,
        config@.reconnect_delay == config.reconnect_delay,
        config@.max_velocity == config.max_velocity@,
        config@.keyboard_scan_interval == config.keyboard_scan_interval,
        texts(strings).len() == strings.len(),
        0 <= i < strings.len() ==> texts(strings)[i] == strings[i]@,
{
}

/// `s` is nothing but white space.
pub open spec fn is_blank(s: Seq<char>) -> bool {
    forall|i: int| 0 <= i < s.len() ==> is_white_space(#[trigger] s[i])
}

/// `s` holds no equals sign, and neither starts nor ends with white space.
pub open spec fn is_plain(s: Seq<char>) -> bool {
    &&& forall|i: int| 0 <= i < s.len() ==> #[trigger] s[i] != '='
    &&& s.len() > 0 ==> !is_white_space(s[0]) && !is_white_space(s[s.len() - 1])
}

proof fn lemma_pair_in_the_middle(
    line: Seq<char>,
    before: Seq<char>,
    left: Seq<char>,
    right: Seq<char>,
    after: Seq<char>,
)
    requires
        line == before + (left + seq!['='] + right) + after,
        is_blank(before),
        is_blank(after),
        forall|i: int| 0 <= i < left.len() ==> #[trigger] left[i] != '=',
        forall|i: int| 0 <= i < right.len() ==> #[trigger] right[i] != '=',
        left.len() > 0 ==> !is_white_space(left[0]) && left[0] != '#',
        right.len() > 0 ==> !is_white_space(right[right.len() - 1]),
    ensures
        pair_on(line) == Some((trim(left), trim(right))),
{
    let s = left + seq!['='] + right;
    let at = left.len() as int;
    assert(s[at] == '=');
    assert(s[0] == if left.len() > 0 {
        left[0]
    } else {
        '='
    });
    assert(s[s.len() - 1] == if right.len() > 0 {
        right[right.len() - 1]
    } else {
        '='
    });
    law_trim_leaves_the_middle(before, s, after);
    assert(trim(line) == s);
    assert forall|j: int| 0 <= j < s.len() && #[trigger] s[j] == '=' implies j == at by {
        if j < at {
            assert(s[j] == left[j]);
        }
        if j > at {
            assert(s[j] == right[j - at - 1]);
        }
    }
    assert(sole_equals_sign(s, at));
    let i = choose|i: int| sole_equals_sign(s, i);
    assert(i == at);
    assert(s.take(at) =~= left);
    assert(s.skip(at + 1) =~= right);
}

/// A line with a key, an equals sign and a value says just that, whatever
/// white space stands before, after and between them, or does not. The key and
/// the value are read whole.
pub proof fn law_pairs_are_read_whole(
    a: Seq<char>,
    key: Seq<char>,
    b: Seq<char>,
    c: Seq<char>,
    value: Seq<char>,
    d: Seq<char>,
)
    requires
        forall|i: int| 0 <= i < a.len() ==> is_white_space(#[trigger] a[i]),
        forall|i: int| 0 <= i < b.len() ==> is_white_space(#[trigger] b[i]),
        forall|i: int| 0 <= i < c.len() ==> is_white_space(#[trigger] c[i]),
        forall|i: int| 0 <= i < d.len() ==> is_white_space(#[trigger] d[i]),
        forall|i: int| 0 <= i < key.len() ==> #[trigger] key[i] != '=',
        forall|i: int| 0 <= i < value.len() ==> #[trigger] value[i] != '=',
        key.len() > 0 ==> key[0] != '#' && !is_white_space(key[0]) && !is_white_space(
            key[key.len() - 1],
        ),
        value.len() > 0 ==> !is_white_space(value[0]) && !is_white_space(value[value.len() - 1]),
    ensures
        pair_on(a + key + b + seq!['='] + c + value + d) == Some((key, value)),
{
    lemma_pairs_are_read_whole(a, key, b, c, value, d);
}

proof fn lemma_pairs_are_read_whole(
    a: Seq<char>,
    key: Seq<char>,
    b: Seq<char>,
    c: Seq<char>,
    value: Seq<char>,
    d: Seq<char>,
)
    requires
        is_blank(a),
        is_blank(b),
        is_blank(c),
        is_blank(d),
        is_plain(key),
        is_plain(value),
        key.len() > 0 ==> key[0] != '#',
    ensures
        pair_on(a + key + b + seq!['='] + c + value + d) == Some((key, value)),
{
    let line = a + key + b + seq!['='] + c + value + d;
    let none = Seq::<char>::empty();
    let (before, left) = if key.len() > 0 {
        (a, key + b)
    } else {
        (a + b, none)
    };
    let (right, after) = if value.len() > 0 {
        (c + value, d)
    } else {
        (none, c + d)
    };
    assert(line =~= before + (left + seq!['='] + right) + after);
    assert forall|i: int| 0 <= i < left.len() implies #[trigger] left[i] != '=' by {
        if i < key.len() {
            assert(left[i] == key[i]);
        } else {
            assert(left[i] == b[i - key.len()]);
        }
    }
    assert forall|i: int| 0 <= i < right.len() implies #[trigger] right[i] != '=' by {
        if i < c.len() {
            assert(right[i] == c[i]);
        } else {
            assert(right[i] == value[i - c.len()]);
        }
    }
    lemma_pair_in_the_middle(line, before, left, right, after);
    law_trim_leaves_the_middle(none, key, b);
    assert(none + key + b =~= key + b);
    law_trim_leaves_the_middle(c, value, none);
    assert(c + value + none =~= c + value);
    law_trim_leaves_the_middle(none, none, none);
    assert(none + none + none =~= none);
    if key.len() == 0 {
        assert(key =~= none);
    }
    if value.len() == 0 {
        assert(value =~= none);
    }
}

proof fn lemma_trim_is_a_part(s: Seq<char>) -> (part: (Seq<char>, Seq<char>))
    ensures
        s == part.0 + trim(s) + part.1,
        is_blank(part.0),
        is_blank(part.1),
{
    let started = lemma_trim_start_is_a_part(s);
    let ended = lemma_trim_end_is_a_part(trim_start(s));
    assert(s =~= started + trim(s) + ended);
    (started, ended)
}

proof fn lemma_trim_start_is_a_part(s: Seq<char>) -> (before: Seq<char>)
    ensures
        s == before + trim_start(s),
        is_blank(before),
    decreases s.len(),
{
    if s.len() > 0 && is_white_space(s.first()) {
        let rest = lemma_trim_start_is_a_part(s.drop_first());
        let before = seq![s.first()] + rest;
        assert(trim_start(s) == trim_start(s.drop_first()));
        assert(s =~= seq![s.first()] + s.drop_first());
        assert(seq![s.first()] + (rest + trim_start(s)) =~= before + trim_start(s));
        assert forall|i: int| 0 <= i < before.len() implies is_white_space(#[trigger] before[i]) by {
            if i > 0 {
                assert(before[i] == rest[i - 1]);
            }
        }
        before
    } else {
        assert(s =~= Seq::<char>::empty() + s);
        Seq::empty()
    }
}

proof fn lemma_trim_end_is_a_part(s: Seq<char>) -> (after: Seq<char>)
    ensures
        s == trim_end(s) + after,
        is_blank(after),
    decreases s.len(),
{
    if s.len() > 0 && is_white_space(s.last()) {
        let rest = lemma_trim_end_is_a_part(s.drop_last());
        let after = rest.push(s.last());
        assert(trim_end(s) == trim_end(s.drop_last()));
        assert(s =~= s.drop_last().push(s.last()));
        assert((trim_end(s) + rest).push(s.last()) =~= trim_end(s) + after);
        after
    } else {
        assert(s =~= s + Seq::<char>::empty());
        Seq::empty()
    }
}

/// A line says nothing if it holds no equals sign, or one at `i` and another
/// one at `j`, or if it is blank, or if what it starts with, after white space,
/// is the sign of a comment.
pub proof fn law_lines_that_say_nothing(
    line: Seq<char>,
    i: int,
    j: int,
    blank: Seq<char>,
    comment: Seq<char>,
)
    requires
        is_blank(blank),
        (forall|k: int| 0 <= k < line.len() ==> #[trigger] line[k] != '=') || (0 <= i < j
            < line.len() && line[i] == '=' && line[j] == '=') || is_blank(line) || line == blank
            + seq!['#'] + comment,
    ensures
        pair_on(line) is None,
{
    let (before, after) = lemma_trim_is_a_part(line);
    let s = trim(line);
    let shift = before.len() as int;
    if line == blank + seq!['#'] + comment {
        assert(line[blank.len() as int] == '#');
        if shift < blank.len() {
            lemma_trimmed_ends(line);
            assert(s.len() > 0) by {
                if s.len() == 0 {
                    assert(after[blank.len() - shift] == '#');
                    assert(is_white_space('#'));
                }
            }
            assert(s[0] == line[shift]);
            assert(line[shift] == blank[shift]);
        } else if shift > blank.len() {
            assert(before[blank.len() as int] == '#');
            assert(is_white_space('#'));
        } else if s.len() > 0 {
            assert(s[0] == line[shift]);
        }
    } else if is_blank(line) {
        lemma_trimmed_ends(line);
        if s.len() > 0 {
            assert(s[0] == line[shift]);
        }
    } else if forall|k: int| 0 <= k < line.len() ==> #[trigger] line[k] != '=' {
        assert forall|k: int| !sole_equals_sign(s, k) by {
            if 0 <= k < s.len() {
                assert(s[k] == line[shift + k]);
            }
        }
    } else {
        lemma_in_the_middle(line, before, s, after, i);
        lemma_in_the_middle(line, before, s, after, j);
        assert forall|k: int| !sole_equals_sign(s, k) by {
            assert(s[i - shift] == '=' && s[j - shift] == '=');
        }
    }
}

proof fn lemma_trimmed_ends(s: Seq<char>)
    ensures
        trim(s).len() > 0 ==> !is_white_space(trim(s)[0]),
{
    crate::text::law_trim_idempotent(s);
    let t = trim(s);
    if t.len() > 0 && is_white_space(t[0]) {
        let started = lemma_trim_start_is_a_part(t.drop_first());
        let ended = lemma_trim_end_is_a_part(trim_start(t));
        assert(trim_start(t) == trim_start(t.drop_first()));
        assert(trim_start(t).len() < t.len());
        assert(trim(t).len() <= trim_start(t).len());
    }
}

proof fn lemma_in_the_middle(
    line: Seq<char>,
    before: Seq<char>,
    s: Seq<char>,
    after: Seq<char>,
    i: int,
)
    requires
        line == before + s + after,
        is_blank(before),
        is_blank(after),
        0 <= i < line.len(),
        line[i] == '=',
    ensures
        before.len() <= i < before.len() + s.len(),
        s[i - before.len()] == '=',
{
    assert(!is_white_space('='));
    if i < before.len() {
        assert(before[i] == '=');
    }
    if i >= before.len() + s.len() {
        assert(after[i - before.len() - s.len()] == '=');
    }
}

proof fn lemma_decimal_is_plain(n: int)
    ensures
        is_plain(decimal(n)),
{
    assert forall|i: int| 0 <= i < decimal(n).len() implies #[trigger] decimal(n)[i] != '='
        && !is_white_space(decimal(n)[i]) by {
        lemma_decimal_chars(n, i);
    }
}

proof fn lemma_keys_are_plain(key: Seq<char>)
    requires
        is_known_key(key),
    ensures
        is_plain(key),
        key.len() > 0,
        key[0] != '#',
{
    reveal_strlit("vmax_normal");
    reveal_strlit("vmax_fast");
    reveal_strlit("vmax_slow");
    reveal_strlit("tau");
    reveal_strlit("double_click_delay");
    reveal_strlit("mousekeys_numlock_on");
    reveal_strlit("movement_update_rate");
    reveal_strlit("reconnect_delay");
    reveal_strlit("max_velocity");
    reveal_strlit("keyboard_scan_interval");
}

/// A line that gives a setting a number in decimal notation sets it to that
/// number, whatever the number, the settings before and the white space on the
/// line are.
pub proof fn law_written_numbers_are_set(
    settings: Settings,
    a: Seq<char>,
    b: Seq<char>,
    c: Seq<char>,
    d: Seq<char>,
    n: i32,
    m: u64,
)
    requires
        is_blank(a),
        is_blank(b),
        is_blank(c),
        is_blank(d),
    ensures
        ({
            let signed = |key: Seq<char>|
                after_line(settings, a + key + b + seq!['='] + c + decimal(n as int) + d);
            let unsigned = |key: Seq<char>|
                after_line(settings, a + key + b + seq!['='] + c + decimal(m as int) + d);
            &&& signed("vmax_normal"@) == (Settings { vmax_normal: n, ..settings })
            &&& signed("vmax_fast"@) == (Settings { vmax_fast: n, ..settings })
            &&& signed("vmax_slow"@) == (Settings { vmax_slow: n, ..settings })
            &&& unsigned("double_click_delay"@) == (Settings { double_click_delay: m, ..settings })
            &&& unsigned("movement_update_rate"@) == (Settings {
                movement_update_rate: m,
                ..settings
            })
            &&& unsigned("reconnect_delay"@) == (Settings { reconnect_delay: m, ..settings })
            &&& unsigned("keyboard_scan_interval"@) == (Settings {
                keyboard_scan_interval: m,
                ..settings
            })
        }),
{
    lemma_keys_differ();
    lemma_decimal_is_plain(n as int);
    lemma_decimal_is_plain(m as int);
    law_decimal_read_back(n as int);
    law_decimal_read_back(m as int);
    lemma_keys_are_plain("vmax_normal"@);
    lemma_keys_are_plain("vmax_fast"@);
    lemma_keys_are_plain("vmax_slow"@);
    lemma_keys_are_plain("double_click_delay"@);
    lemma_keys_are_plain("movement_update_rate"@);
    lemma_keys_are_plain("reconnect_delay"@);
    lemma_keys_are_plain("keyboard_scan_interval"@);
    law_pairs_are_read_whole(a, "vmax_normal"@, b, c, decimal(n as int), d);
    law_pairs_are_read_whole(a, "vmax_fast"@, b, c, decimal(n as int), d);
    law_pairs_are_read_whole(a, "vmax_slow"@, b, c, decimal(n as int), d);
    law_pairs_are_read_whole(a, "double_click_delay"@, b, c, decimal(m as int), d);
    law_pairs_are_read_whole(a, "movement_update_rate"@, b, c, decimal(m as int), d);
    law_pairs_are_read_whole(a, "reconnect_delay"@, b, c, decimal(m as int), d);
    law_pairs_are_read_whole(a, "keyboard_scan_interval"@, b, c, decimal(m as int), d);
}

/// A line that gives `tau` or `max_velocity` a floating-point number keeps it
/// as it is written; one that gives NumLock its part sets it.
pub proof fn law_written_words_are_set(
    settings: Settings,
    a: Seq<char>,
    b: Seq<char>,
    c: Seq<char>,
    d: Seq<char>,
    value: Seq<char>,
    on: bool,
)
    requires
        is_blank(a),
        is_blank(b),
        is_blank(c),
        is_blank(d),
        is_plain(value),
        is_fraction(value),
    ensures
        ({
            let word = if on {
                "true"@
            } else {
                "false"@
            };
            let given = |key: Seq<char>, text: Seq<char>|
                after_line(settings, a + key + b + seq!['='] + c + text + d);
            &&& given("tau"@, value) == (Settings { tau: value, ..settings })
            &&& given("max_velocity"@, value) == (Settings { max_velocity: value, ..settings })
            &&& given("mousekeys_numlock_on"@, word) == (Settings {
                mousekeys_numlock_on: on,
                ..settings
            })
        }),
{
    reveal_strlit("true");
    reveal_strlit("false");
    assert("true"@.len() != "false"@.len());
    let word = if on {
        "true"@
    } else {
        "false"@
    };
    assert(is_plain(word));
    lemma_keys_differ();
    lemma_keys_are_plain("tau"@);
    lemma_keys_are_plain("max_velocity"@);
    lemma_keys_are_plain("mousekeys_numlock_on"@);
    law_pairs_are_read_whole(a, "tau"@, b, c, value, d);
    law_pairs_are_read_whole(a, "max_velocity"@, b, c, value, d);
    law_pairs_are_read_whole(a, "mousekeys_numlock_on"@, b, c, word, d);
}

/// Settings are sound exactly if no speed is negative and neither fraction is
/// out of range; otherwise what is wrong is named, speeds before `tau` and
/// `tau` before `max_velocity`.
pub proof fn law_verdicts(settings: Settings, tau_wrong: bool, max_wrong: bool)
    ensures
        ({
            let verdict = verdict_on(settings, tau_wrong, max_wrong);
            let speeds = settings.vmax_normal >= 0 && settings.vmax_fast >= 0 && settings.vmax_slow
                >= 0;
            &&& verdict is Ok <==> speeds && !tau_wrong && !max_wrong
            &&& verdict == Err::<(), ConfigError>(ConfigError::NegativeVelocity) <==> !speeds
            &&& verdict == Err::<(), ConfigError>(ConfigError::TauOutOfRange) <==> speeds
                && tau_wrong
            &&& verdict == Err::<(), ConfigError>(ConfigError::MaxVelocityNotPositive) <==> speeds
                && !tau_wrong && max_wrong
        }),
{
}

/// A file without lines changes nothing, and one with a single line does what
/// the line says. So what a file does is what its lines do, one after the
/// other, however many there are.
pub proof fn law_files_line_by_line(settings: Settings, lines: Seq<Seq<char>>, line: Seq<char>)
    ensures
        after_lines(settings, Seq::empty()) == settings,
        after_lines(settings, seq![line]) == after_line(settings, line),
        after_lines(settings, lines.push(line)) == after_line(after_lines(settings, lines), line),
        after_lines(settings, seq![line] + lines) == after_lines(
            after_line(settings, line),
            lines,
        ),
{
    assert(seq![line].drop_last() =~= Seq::<Seq<char>>::empty());
    assert(lines.push(line).drop_last() =~= lines);
    assert(seq![line].last() == line);
    assert(after_lines(settings, seq![line].drop_last()) == settings);
    law_lines_in_two_parts(settings, seq![line], lines);
}

} // verus!
