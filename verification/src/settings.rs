//! The settings and the text in which they are kept: one `key=value` pair
//! on each line.

use crate::hotkey::same_text;
use crate::region::CaptureRegion;
use crate::sample::Rgb;
use crate::signal::Thresholds;
use vstd::prelude::*;
use vstd::string::*;

verus! {

/// Everything that the shell lets the user set.
#[derive(Clone, Debug, PartialEq, Eq)]
pub struct Settings {
    /// The binding that shows or hides the capture box.
    pub toggle_box: String,
    /// The binding that switches the loop on or off.
    pub toggle_action: String,
    /// The binding that ends the program.
    pub exit_app: String,
    /// Whether the status overlay is shown.
    pub enable_overlay: bool,
    /// Column of the status overlay.
    pub status_x: i32,
    /// Row of the status overlay.
    pub status_y: i32,
    /// The rectangle to capture.
    pub region: CaptureRegion,
    /// The marker and the policy's timing.
    pub thresholds: Thresholds,
    /// Length of a tick, in milliseconds.
    pub tick_interval_ms: u64,
}

/// The settings as plain values.
pub struct SettingsModel {
    pub toggle_box: Seq<char>,
    pub toggle_action: Seq<char>,
    pub exit_app: Seq<char>,
    pub enable_overlay: bool,
    pub status_x: i32,
    pub status_y: i32,
    pub region: CaptureRegion,
    pub thresholds: Thresholds,
    pub tick_interval_ms: u64,
}

impl View for Settings {
    type V = SettingsModel;

    open spec fn view(&self) -> SettingsModel {
        SettingsModel {
            toggle_box: self.toggle_box@,
            toggle_action: self.toggle_action@,
            exit_app: self.exit_app@,
            enable_overlay: self.enable_overlay,
            status_x: self.status_x,
            status_y: self.status_y,
            region: self.region,
            thresholds: self.thresholds,
            tick_interval_ms: self.tick_interval_ms,
        }
    }
}

/// `c` is one of the ten digits.
pub open spec fn is_digit(c: char) -> bool {
    0x30 <= c as u32 <= 0x39
}

/// The number that a digit stands for.
pub open spec fn digit_value(c: char) -> int {
    c as u32 - 0x30
}

/// The text is one digit or more and nothing else.
pub open spec fn all_digits(s: Seq<char>) -> bool {
    s.len() > 0 && forall|i: int| 0 <= i < s.len() ==> is_digit(#[trigger] s[i])
}

/// The number that a run of digits stands for in base ten.
pub open spec fn digits_value(s: Seq<char>) -> int
    decreases s.len(),
{
    if s.len() == 0 {
        0
    } else {
        digits_value(s.drop_last()) * 10 + digit_value(s.last())
    }
}

/// The number that a text stands for: digits, with a minus sign before
/// them for a number below zero. Any other text stands for none.
pub open spec fn decimal_value(s: Seq<char>) -> Option<int> {
    if s.len() > 0 && s[0] == '-' {
        if all_digits(s.skip(1)) {
            Some(-digits_value(s.skip(1)))
        } else {
            None
        }
    } else if all_digits(s) {
        Some(digits_value(s))
    } else {
        None
    }
}

/// The number that a text stands for, where it lies from `low` to `high`.
pub open spec fn ranged_value(s: Seq<char>, low: int, high: int) -> Option<int> {
    match decimal_value(s) {
        Some(v) if low <= v <= high => Some(v),
        _ => None,
    }
}

/// The character of a digit.
pub open spec fn digit_char(d: int) -> char {
    if d == 0 {
        '0'
    } else if d == 1 {
        '1'
    } else if d == 2 {
        '2'
    } else if d == 3 {
        '3'
    } else if d == 4 {
        '4'
    } else if d == 5 {
        '5'
    } else if d == 6 {
        '6'
    } else if d == 7 {
        '7'
    } else if d == 8 {
        '8'
    } else {
        '9'
    }
}

/// The digits of a number in base ten, without leading zeros.
pub open spec fn digits_of(n: nat) -> Seq<char>
    decreases n,
{
    if n < 10 {
        seq![digit_char(n as int)]
    } else {
        digits_of(n / 10).push(digit_char((n % 10) as int))
    }
}

/// The text of a number in base ten, with a minus sign before a number
/// below zero.
pub open spec fn decimal_text(v: int) -> Seq<char> {
    if v < 0 {
        seq!['-'] + digits_of((-v) as nat)
    } else {
        digits_of(v as nat)
    }
}

/// The place of the first `c` in `s` at or after `from`; the length of `s`
/// where there is none.
pub open spec fn find_char(s: Seq<char>, c: char, from: int) -> int
    decreases s.len() - from,
{
    if from < 0 || from >= s.len() {
        s.len() as int
    } else if s[from] == c {
        from
    } else {
        find_char(s, c, from + 1)
    }
}

/// One line of the settings text: the key, `=`, the value and a line feed.
pub open spec fn line_of(key: Seq<char>, value: Seq<char>) -> Seq<char> {
    key + seq!['='] + value + seq!['\n']
}

/// The text of a list of pairs, a line for each.
pub open spec fn lines_of(pairs: Seq<(Seq<char>, Seq<char>)>) -> Seq<char>
    decreases pairs.len(),
{
    if pairs.len() == 0 {
        Seq::empty()
    } else {
        line_of(pairs[0].0, pairs[0].1) + lines_of(pairs.skip(1))
    }
}

/// The text of the first `n` pairs of a list.
pub open spec fn lines_upto(pairs: Seq<(Seq<char>, Seq<char>)>, n: nat) -> Seq<char>
    decreases n,
{
    if n == 0 {
        Seq::empty()
    } else {
        lines_upto(pairs, (n - 1) as nat) + line_of(pairs[n - 1].0, pairs[n - 1].1)
    }
}

/// No character of `s` is `c`.
pub open spec fn free_of(s: Seq<char>, c: char) -> bool {
    forall|i: int| 0 <= i < s.len() ==> #[trigger] s[i] != c
}

/// Each key is free of `=` and of line feeds, each value of line feeds:
/// such pairs can be told apart again in the text.
pub open spec fn readable(pairs: Seq<(Seq<char>, Seq<char>)>) -> bool {
    forall|i: int|
        0 <= i < pairs.len() ==> {
            &&& free_of((#[trigger] pairs[i]).0, '=')
            &&& free_of(pairs[i].0, '\n')
            &&& free_of(pairs[i].1, '\n')
        }
}

impl SettingsModel {
    /// The settings of a first start.
    pub open spec fn defaults() -> SettingsModel {
        SettingsModel {
            toggle_box: "F1"@,
            toggle_action: "F2"@,
            exit_app: "F3"@,
            enable_overlay: true,
            status_x: 20,
            status_y: 20,
            region: CaptureRegion { x: 0, y: 0, width: 100, height: 100 },
            thresholds: Thresholds {
                target: Rgb { r: 255, g: 0, b: 0 },
                tolerance: 0,
                debounce_ticks: 3,
                cooldown_ms: 250,
                max_hold_ms: 2000,
            },
            tick_interval_ms: 30,
        }
    }

    /// The settings as pairs of key and value, in the order in which they
    /// are written.
    pub open spec fn pairs(self) -> Seq<(Seq<char>, Seq<char>)> {
        seq![
            ("toggle_box"@, self.toggle_box),
            ("toggle_action"@, self.toggle_action),
            ("exit_app"@, self.exit_app),
            ("enable_overlay"@, if self.enable_overlay {
                "true"@
            } else {
                "false"@
            }),
            ("status_x"@, decimal_text(self.status_x as int)),
            ("status_y"@, decimal_text(self.status_y as int)),
            ("capture_x"@, decimal_text(self.region.x as int)),
            ("capture_y"@, decimal_text(self.region.y as int)),
            ("capture_width"@, decimal_text(self.region.width as int)),
            ("capture_height"@, decimal_text(self.region.height as int)),
            ("target_r"@, decimal_text(self.thresholds.target.r as int)),
            ("target_g"@, decimal_text(self.thresholds.target.g as int)),
            ("target_b"@, decimal_text(self.thresholds.target.b as int)),
            ("tolerance"@, decimal_text(self.thresholds.tolerance as int)),
            ("debounce_ticks"@, decimal_text(self.thresholds.debounce_ticks as int)),
            ("cooldown_ms"@, decimal_text(self.thresholds.cooldown_ms as int)),
            ("max_hold_ms"@, decimal_text(self.thresholds.max_hold_ms as int)),
            ("tick_interval_ms"@, decimal_text(self.tick_interval_ms as int)),
        ]
    }

    /// The text in which the settings are kept: a line for each of them.
    pub open spec fn text(self) -> Seq<char> {
        lines_of(self.pairs())
    }

    /// The settings after one pair. A key that is not known changes
    /// nothing, and so does a value that is no number of the key's range.
    pub open spec fn with_pair(self, key: Seq<char>, value: Seq<char>) -> SettingsModel {
        if key == "toggle_box"@ {
            SettingsModel { toggle_box: value, ..self }
        } else if key == "toggle_action"@ {
            SettingsModel { toggle_action: value, ..self }
        } else if key == "exit_app"@ {
            SettingsModel { exit_app: value, ..self }
        } else if key == "enable_overlay"@ {
            if value == "true"@ {
                SettingsModel { enable_overlay: true, ..self }
            } else if value == "false"@ {
                SettingsModel { enable_overlay: false, ..self }
            } else {
                self
            }
        } else if key == "status_x"@ {
            match ranged_value(value, i32::MIN as int, i32::MAX as int) {
                Some(v) => SettingsModel { status_x: v as i32, ..self },
                None => self,
            }
        } else if key == "status_y"@ {
            match ranged_value(value, i32::MIN as int, i32::MAX as int) {
                Some(v) => SettingsModel { status_y: v as i32, ..self },
                None => self,
            }
        } else if key == "capture_x"@ {
            match ranged_value(value, i32::MIN as int, i32::MAX as int) {
                Some(v) => SettingsModel {
                    region: CaptureRegion { x: v as i32, ..self.region },
                    ..self
                },
                None => self,
            }
        } else if key == "capture_y"@ {
            match ranged_value(value, i32::MIN as int, i32::MAX as int) {
                Some(v) => SettingsModel {
                    region: CaptureRegion { y: v as i32, ..self.region },
                    ..self
                },
                None => self,
            }
        } else if key == "capture_width"@ {
            match ranged_value(value, 0, u32::MAX as int) {
                Some(v) => SettingsModel {
                    region: CaptureRegion { width: v as u32, ..self.region },
                    ..self
                },
                None => self,
            }
        } else if key == "capture_height"@ {
            match ranged_value(value, 0, u32::MAX as int) {
                Some(v) => SettingsModel {
                    region: CaptureRegion { height: v as u32, ..self.region },
                    ..self
                },
                None => self,
            }
        } else if key == "target_r"@ {
            match ranged_value(value, 0, 255) {
                Some(v) => SettingsModel {
                    thresholds: Thresholds {
                        target: Rgb { r: v as u8, ..self.thresholds.target },
                        ..self.thresholds
                    },
                    ..self
                },
                None => self,
            }
        } else if key == "target_g"@ {
            match ranged_value(value, 0, 255) {
                Some(v) => SettingsModel {
                    thresholds: Thresholds {
                        target: Rgb { g: v as u8, ..self.thresholds.target },
                        ..self.thresholds
                    },
                    ..self
                },
                None => self,
            }
        } else if key == "target_b"@ {
            match ranged_value(value, 0, 255) {
                Some(v) => SettingsModel {
                    thresholds: Thresholds {
                        target: Rgb { b: v as u8, ..self.thresholds.target },
                        ..self.thresholds
                    },
                    ..self
                },
                None => self,
            }
        } else if key == "tolerance"@ {
            match ranged_value(value, i32::MIN as int, i32::MAX as int) {
                Some(v) => SettingsModel {
                    thresholds: Thresholds { tolerance: v as i32, ..self.thresholds },
                    ..self
                },
                None => self,
            }
        } else if key == "debounce_ticks"@ {
            match ranged_value(value, 0, u32::MAX as int) {
                Some(v) => SettingsModel {
                    thresholds: Thresholds { debounce_ticks: v as u32, ..self.thresholds },
                    ..self
                },
                None => self,
            }
        } else if key == "cooldown_ms"@ {
            match ranged_value(value, 0, u64::MAX as int) {
                Some(v) => SettingsModel {
                    thresholds: Thresholds { cooldown_ms: v as u64, ..self.thresholds },
                    ..self
                },
                None => self,
            }
        } else if key == "max_hold_ms"@ {
            match ranged_value(value, 0, u64::MAX as int) {
                Some(v) => SettingsModel {
                    thresholds: Thresholds { max_hold_ms: v as u64, ..self.thresholds },
                    ..self
                },
                None => self,
            }
        } else if key == "tick_interval_ms"@ {
            match ranged_value(value, 0, u64::MAX as int) {
                Some(v) => SettingsModel { tick_interval_ms: v as u64, ..self },
                None => self,
            }
        } else {
            self
        }
    }

    /// The settings after one line: the key is what stands before the
    /// first `=`, the value what follows it. A line without `=` changes
    /// nothing.
    pub open spec fn with_line(self, line: Seq<char>) -> SettingsModel {
        let eq = find_char(line, '=', 0);
        if eq < line.len() {
            self.with_pair(line.subrange(0, eq), line.subrange(eq + 1, line.len() as int))
        } else {
            self
        }
    }

    /// The settings after the lines of `text` from place `from` on, each
    /// line ending at a line feed or at the end of the text.
    pub open spec fn with_lines(self, text: Seq<char>, from: int) -> SettingsModel
        decreases text.len() - from,
    {
        if from < 0 || from >= text.len() {
            self
        } else {
            let end = find_char(text, '\n', from);
            if from <= end < text.len() {
                self.with_line(text.subrange(from, end)).with_lines(text, end + 1)
            } else {
                self.with_line(text.skip(from))
            }
        }
    }

    /// The settings after a list of pairs, taken in turn.
    pub open spec fn with_pairs(self, pairs: Seq<(Seq<char>, Seq<char>)>) -> SettingsModel
        decreases pairs.len(),
    {
        if pairs.len() == 0 {
            self
        } else {
            self.with_pair(pairs[0].0, pairs[0].1).with_pairs(pairs.skip(1))
        }
    }

    /// The settings after the first `n` pairs of a list, taken in turn.
    pub open spec fn with_pairs_upto(self, pairs: Seq<(Seq<char>, Seq<char>)>, n: nat)
        -> SettingsModel
        decreases n,
    {
        if n == 0 {
            self
        } else {
            self.with_pairs_upto(pairs, (n - 1) as nat).with_pair(pairs[n - 1].0, pairs[n - 1].1)
        }
    }

    /// The settings that a text holds: the defaults, changed by each of its
    /// lines in turn.
    pub open spec fn of_text(text: Seq<char>) -> SettingsModel {
        Self::defaults().with_lines(text, 0)
    }
}

impl Settings {
    /// The settings of a first start.
    pub fn defaults() -> (s: Settings)
        ensures
            s@ == SettingsModel::defaults(),
    {
        Settings {
            toggle_box: "F1".to_owned(),
            toggle_action: "F2".to_owned(),
            exit_app: "F3".to_owned(),
            enable_overlay: true,
            status_x: 20,
            status_y: 20,
            region: CaptureRegion { x: 0, y: 0, width: 100, height: 100 },
            thresholds: Thresholds {
                target: Rgb { r: 255, g: 0, b: 0 },
                tolerance: 0,
                debounce_ticks: 3,
                cooldown_ms: 250,
                max_hold_ms: 2000,
            },
            tick_interval_ms: 30,
        }
    }

    /// Writes the settings as text, a line for each of them.
    pub fn render(&self) -> (out: String)
        ensures
            out@ == self@.text(),
    {
        let ghost pairs = self@.pairs();
        let mut out = String::new();
        assert(out@ =~= lines_upto(pairs, 0));
        push_line(&mut out, "toggle_box", self.toggle_box.as_str());
        assert(out@ == lines_upto(pairs, 1));
        push_line(&mut out, "toggle_action", self.toggle_action.as_str());
        assert(out@ == lines_upto(pairs, 2));
        push_line(&mut out, "exit_app", self.exit_app.as_str());
        assert(out@ == lines_upto(pairs, 3));
        push_line(&mut out, "enable_overlay", if self.enable_overlay { "true" } else { "false" });
        assert(out@ == lines_upto(pairs, 4));
        push_number_line(&mut out, "status_x", self.status_x as i128);
        assert(out@ == lines_upto(pairs, 5));
        push_number_line(&mut out, "status_y", self.status_y as i128);
        assert(out@ == lines_upto(pairs, 6));
        push_number_line(&mut out, "capture_x", self.region.x as i128);
        assert(out@ == lines_upto(pairs, 7));
        push_number_line(&mut out, "capture_y", self.region.y as i128);
        assert(out@ == lines_upto(pairs, 8));
        push_number_line(&mut out, "capture_width", self.region.width as i128);
        assert(out@ == lines_upto(pairs, 9));
        push_number_line(&mut out, "capture_height", self.region.height as i128);
        assert(out@ == lines_upto(pairs, 10));
        push_number_line(&mut out, "target_r", self.thresholds.target.r as i128);
        assert(out@ == lines_upto(pairs, 11));
        push_number_line(&mut out, "target_g", self.thresholds.target.g as i128);
        assert(out@ == lines_upto(pairs, 12));
        push_number_line(&mut out, "target_b", self.thresholds.target.b as i128);
        assert(out@ == lines_upto(pairs, 13));
        push_number_line(&mut out, "tolerance", self.thresholds.tolerance as i128);
        assert(out@ == lines_upto(pairs, 14));
        push_number_line(&mut out, "debounce_ticks", self.thresholds.debounce_ticks as i128);
        assert(out@ == lines_upto(pairs, 15));
        push_number_line(&mut out, "cooldown_ms", self.thresholds.cooldown_ms as i128);
        assert(out@ == lines_upto(pairs, 16));
        push_number_line(&mut out, "max_hold_ms", self.thresholds.max_hold_ms as i128);
        assert(out@ == lines_upto(pairs, 17));
        push_number_line(&mut out, "tick_interval_ms", self.tick_interval_ms as i128);
        assert(out@ == lines_upto(pairs, 18));
        proof {
            lemma_lines_upto(pairs, 18);
            assert(pairs.take(18) =~= pairs);
        }
        out
    }

    /// Takes one pair. A key that is not known changes nothing, and so
    /// does a value that is no number of the key's range.
    pub fn assign(&mut self, key: &str, value: &str)
        ensures
            final(self)@ == old(self)@.with_pair(key@, value@),
    {
        if same_text(key, "toggle_box") {
            self.toggle_box = value.to_owned();
        } else if same_text(key, "toggle_action") {
            self.toggle_action = value.to_owned();
        } else if same_text(key, "exit_app") {
            self.exit_app = value.to_owned();
        } else if same_text(key, "enable_overlay") {
            if same_text(value, "true") {
                self.enable_overlay = true;
            } else if same_text(value, "false") {
                self.enable_overlay = false;
            }
        } else if same_text(key, "status_x") {
            match parse_ranged(value, i32::MIN as i64, i32::MAX as u64) {
                Some(v) => {
                    self.status_x = v as i32;
                },
                None => {},
            }
        } else if same_text(key, "status_y") {
            match parse_ranged(value, i32::MIN as i64, i32::MAX as u64) {
                Some(v) => {
                    self.status_y = v as i32;
                },
                None => {},
            }
        } else if same_text(key, "capture_x") {
            match parse_ranged(value, i32::MIN as i64, i32::MAX as u64) {
                Some(v) => {
                    self.region.x = v as i32;
                },
                None => {},
            }
        } else if same_text(key, "capture_y") {
            match parse_ranged(value, i32::MIN as i64, i32::MAX as u64) {
                Some(v) => {
                    self.region.y = v as i32;
                },
                None => {},
            }
        } else if same_text(key, "capture_width") {
            match parse_ranged(value, 0, u32::MAX as u64) {
                Some(v) => {
                    self.region.width = v as u32;
                },
                None => {},
            }
        } else if same_text(key, "capture_height") {
            match parse_ranged(value, 0, u32::MAX as u64) {
                Some(v) => {
                    self.region.height = v as u32;
                },
                None => {},
            }
        } else if same_text(key, "target_r") {
            match parse_ranged(value, 0, 255) {
                Some(v) => {
                    self.thresholds.target.r = v as u8;
                },
                None => {},
            }
        } else if same_text(key, "target_g") {
            match parse_ranged(value, 0, 255) {
                Some(v) => {
                    self.thresholds.target.g = v as u8;
                },
                None => {},
            }
        } else if same_text(key, "target_b") {
            match parse_ranged(value, 0, 255) {
                Some(v) => {
                    self.thresholds.target.b = v as u8;
                },
                None => {},
            }
        } else if same_text(key, "tolerance") {
            match parse_ranged(value, i32::MIN as i64, i32::MAX as u64) {
                Some(v) => {
                    self.thresholds.tolerance = v as i32;
                },
                None => {},
            }
        } else if same_text(key, "debounce_ticks") {
            match parse_ranged(value, 0, u32::MAX as u64) {
                Some(v) => {
                    self.thresholds.debounce_ticks = v as u32;
                },
                None => {},
            }
        } else if same_text(key, "cooldown_ms") {
            match parse_ranged(value, 0, u64::MAX) {
                Some(v) => {
                    self.thresholds.cooldown_ms = v as u64;
                },
                None => {},
            }
        } else if same_text(key, "max_hold_ms") {
            match parse_ranged(value, 0, u64::MAX) {
                Some(v) => {
                    self.thresholds.max_hold_ms = v as u64;
                },
                None => {},
            }
        } else if same_text(key, "tick_interval_ms") {
            match parse_ranged(value, 0, u64::MAX) {
                Some(v) => {
                    self.tick_interval_ms = v as u64;
                },
                None => {},
            }
        }
    }

    /// Takes one line: the key is what stands before the first `=`, the
    /// value what follows it. A line without `=` changes nothing.
    pub fn assign_line(&mut self, line: &str)
        ensures
            final(self)@ == old(self)@.with_line(line@),
    {
        let len: usize = line.unicode_len();
        let eq: usize = index_of(line, len, '=', 0);
        if eq < len {
            let key = line.substring_char(0, eq);
            let value = line.substring_char(eq + 1, len);
            self.assign(key, value);
        }
    }
}

/// Reads the settings that a text holds: the defaults, changed by each of
/// its lines in turn. Lines end at a line feed.
pub fn parse_settings(text: &str) -> (settings: Settings)
    ensures
        settings@ == SettingsModel::of_text(text@),
{
    let len: usize = text.unicode_len();
    let mut settings = Settings::defaults();
    let mut from: usize = 0;
    while from < len
        invariant
            from <= len,
            len == text@.len(),
            settings@.with_lines(text@, from as int) == SettingsModel::of_text(text@),
        decreases len - from,
    {
        let end: usize = index_of(text, len, '\n', from);
        let line = text.substring_char(from, end);
        proof {
            if end == len {
                assert(text@.subrange(from as int, end as int) =~= text@.skip(from as int));
            }
        }
        settings.assign_line(line);
        from = if end < len { end + 1 } else { len };
    }
    settings
}

/// The place of the first `c` at or after `from`.
fn index_of(s: &str, len: usize, c: char, from: usize) -> (at: usize)
    requires
        len == s@.len(),
        from <= len,
    ensures
        at == find_char(s@, c, from as int),
        from <= at <= len,
{
    let mut i: usize = from;
    while i < len
        invariant
            from <= i <= len,
            len == s@.len(),
            find_char(s@, c, from as int) == find_char(s@, c, i as int),
        decreases len - i,
    {
        if s.get_char(i) == c {
            return i;
        }
        i += 1;
    }
    i
}

/// The number that a text stands for, where it lies from `low` to `high`.
pub fn parse_ranged(s: &str, low: i64, high: u64) -> (r: Option<i128>)
    ensures
        match ranged_value(s@, low as int, high as int) {
            Some(v) => r == Some(v as i128),
            None => r is None,
        },
{
    let len: usize = s.unicode_len();
    if len == 0 {
        return None;
    }
    let negative: bool = s.get_char(0) == '-';
    let start: usize = if negative { 1 } else { 0 };
    if start == len {
        return None;
    }
    let ghost digits = s@.skip(start as int);
    proof {
        if !negative {
            assert(digits =~= s@);
        }
    }
    let mut total: i128 = 0;
    let mut i: usize = start;
    while i < len
        invariant
            start <= i <= len,
            len == s@.len(),
            len > 0,
            negative == (s@[0] == '-'),
            start == if negative { 1usize } else { 0usize },
            digits == s@.skip(start as int),
            forall|k: int| 0 <= k < i - start ==> is_digit(#[trigger] digits[k]),
            total == digits_value(digits.take(i - start)),
            0 <= total <= u64::MAX,
        decreases len - i,
    {
        let c: char = s.get_char(i);
        let code: u32 = c as u32;
        assert(digits[i - start] == c);
        proof {
            if !negative {
                assert(digits =~= s@);
            }
        }
        if code < 0x30 || code > 0x39 {
            assert(!is_digit(digits[i - start]));
            return None;
        }
        let next: i128 = total * 10 + (code - 0x30) as i128;
        proof {
            let upto = digits.take(i + 1 - start);
            assert(upto.drop_last() =~= digits.take(i - start));
            assert(upto.last() == c);
            assert(next == digits_value(upto));
        }
        if next > u64::MAX as i128 {
            proof {
                if all_digits(digits) {
                    lemma_digits_grow(digits, i + 1 - start);
                }
            }
            return None;
        }
        total = next;
        i += 1;
    }
    proof {
        assert(digits.take(len - start) =~= digits);
        assert(all_digits(digits));
    }
    let value: i128 = if negative { -total } else { total };
    if low as i128 <= value && value <= high as i128 {
        Some(value)
    } else {
        None
    }
}

/// Appends one line: the key, `=`, the value and a line feed.
fn push_line(out: &mut String, key: &str, value: &str)
    ensures
        final(out)@ == old(out)@ + line_of(key@, value@),
{
    proof {
        reveal_strlit("=");
        reveal_strlit("\n");
    }
    out.append(key);
    out.append("=");
    out.append(value);
    out.append("\n");
    assert("="@ =~= seq!['=']);
    assert("\n"@ =~= seq!['\n']);
    assert(out@ =~= old(out)@ + line_of(key@, value@));
}

/// Appends one line whose value is a number.
fn push_number_line(out: &mut String, key: &str, v: i128)
    ensures
        final(out)@ == old(out)@ + line_of(key@, decimal_text(v as int)),
{
    proof {
        reveal_strlit("=");
        reveal_strlit("\n");
    }
    out.append(key);
    out.append("=");
    push_decimal(out, v);
    out.append("\n");
    assert("="@ =~= seq!['=']);
    assert("\n"@ =~= seq!['\n']);
    assert(out@ =~= old(out)@ + line_of(key@, decimal_text(v as int)));
}

/// The text of the first `n` pairs is the text of the list of those pairs.
proof fn lemma_lines_upto(pairs: Seq<(Seq<char>, Seq<char>)>, n: nat)
    requires
        n <= pairs.len(),
    ensures
        lines_upto(pairs, n) == lines_of(pairs.take(n as int)),
    decreases n,
{
    if n > 0 {
        lemma_lines_upto(pairs, (n - 1) as nat);
        lemma_lines_of_push(pairs.take(n - 1), pairs[n - 1]);
        assert(pairs.take(n - 1).push(pairs[n - 1]) =~= pairs.take(n as int));
    } else {
        assert(pairs.take(0).len() == 0);
    }
}

/// A pair more at the end of a list is a line more at the end of its text.
proof fn lemma_lines_of_push(pairs: Seq<(Seq<char>, Seq<char>)>, last: (Seq<char>, Seq<char>))
    ensures
        lines_of(pairs.push(last)) == lines_of(pairs) + line_of(last.0, last.1),
    decreases pairs.len(),
{
    let all = pairs.push(last);
    if pairs.len() == 0 {
        assert(all.skip(1).len() == 0);
        assert(all[0] == last);
        assert(lines_of(all.skip(1)) =~= Seq::<char>::empty());
        assert(lines_of(pairs) =~= Seq::<char>::empty());
        assert(lines_of(all) =~= line_of(last.0, last.1));
        assert(lines_of(pairs) + line_of(last.0, last.1) =~= line_of(last.0, last.1));
    } else {
        lemma_lines_of_push(pairs.skip(1), last);
        assert(all.skip(1) =~= pairs.skip(1).push(last));
        assert(all[0] == pairs[0]);
        assert(lines_of(all) =~= lines_of(pairs) + line_of(last.0, last.1));
    }
}

/// The text of one digit.
fn digit_text(d: u8) -> (t: &'static str)
    requires
        d < 10,
    ensures
        t@ == seq![digit_char(d as int)],
{
    proof {
        reveal_strlit("0");
        reveal_strlit("1");
        reveal_strlit("2");
        reveal_strlit("3");
        reveal_strlit("4");
        reveal_strlit("5");
        reveal_strlit("6");
        reveal_strlit("7");
        reveal_strlit("8");
        reveal_strlit("9");
    }
    let t = if d == 0 {
        "0"
    } else if d == 1 {
        "1"
    } else if d == 2 {
        "2"
    } else if d == 3 {
        "3"
    } else if d == 4 {
        "4"
    } else if d == 5 {
        "5"
    } else if d == 6 {
        "6"
    } else if d == 7 {
        "7"
    } else if d == 8 {
        "8"
    } else {
        "9"
    };
    assert(t@ =~= seq![digit_char(d as int)]);
    t
}

/// Appends the digits of a number.
fn push_digits(out: &mut String, n: u128)
    ensures
        final(out)@ == old(out)@ + digits_of(n as nat),
    decreases n,
{
    if n >= 10 {
        push_digits(out, n / 10);
    }
    let ghost before = out@;
    out.append(digit_text((n % 10) as u8));
    proof {
        if n >= 10 {
            assert(out@ =~= old(out)@ + digits_of(n as nat));
        } else {
            assert(out@ =~= old(out)@ + digits_of(n as nat));
        }
    }
}

/// Appends the text of a number in base ten.
pub fn push_decimal(out: &mut String, v: i128)
    ensures
        final(out)@ == old(out)@ + decimal_text(v as int),
{
    if v < 0 {
        proof {
            reveal_strlit("-");
        }
        out.append("-");
        assert(out@ =~= old(out)@ + seq!['-']);
        let magnitude: u128 = (-(v + 1)) as u128 + 1;
        push_digits(out, magnitude);
        assert(out@ =~= old(out)@ + decimal_text(v as int));
    } else {
        push_digits(out, v as u128);
    }
}

/// Reading the text of a number gives the number back.
pub proof fn decimal_text_reads_back(v: int)
    ensures
        decimal_value(decimal_text(v)) == Some(v),
{
    if v < 0 {
        lemma_digits_read_back((-v) as nat);
        assert(decimal_text(v).skip(1) =~= digits_of((-v) as nat));
    } else {
        lemma_digits_read_back(v as nat);
    }
}

/// The digits of a number are digits, and they stand for the number.
proof fn lemma_digits_read_back(n: nat)
    ensures
        all_digits(digits_of(n)),
        digits_value(digits_of(n)) == n,
        digits_of(n)[0] != '-',
    decreases n,
{
    if n >= 10 {
        lemma_digits_read_back(n / 10);
        let all = digits_of(n);
        assert(all.drop_last() =~= digits_of(n / 10));
        assert(all.last() == digit_char((n % 10) as int));
        assert(all[0] == digits_of(n / 10)[0]);
    } else {
        let all = digits_of(n);
        assert(all.drop_last() =~= Seq::<char>::empty());
        assert(digits_value(all.drop_last()) == 0);
    }
}

/// Reading the text of pairs gives the pairs back: the lines of readable
/// pairs, read from where they start in a text that ends with them, change
/// the settings as the pairs do, in turn.
pub proof fn lines_read_back(
    m: SettingsModel,
    before: Seq<char>,
    pairs: Seq<(Seq<char>, Seq<char>)>,
)
    requires
        readable(pairs),
    ensures
        m.with_lines(before + lines_of(pairs), before.len() as int) == m.with_pairs(pairs),
    decreases pairs.len(),
{
    let text = before + lines_of(pairs);
    let from = before.len() as int;
    if pairs.len() > 0 {
        let key = pairs[0].0;
        let value = pairs[0].1;
        let line = line_of(key, value);
        let rest = pairs.skip(1);
        let end = from + key.len() + 1 + value.len();
        assert(free_of(key, '=') && free_of(key, '\n') && free_of(value, '\n'));
        assert forall|i: int| from <= i < end implies text[i] != '\n' by {
            if i < from + key.len() {
                assert(text[i] == key[i - from]);
            } else if i > from + key.len() {
                assert(text[i] == value[i - from - key.len() - 1]);
            } else {
                assert(text[i] == '=');
            }
        }
        assert(text[end] == '\n');
        lemma_find(text, '\n', from, end);
        let body = text.subrange(from, end);
        assert(body =~= key + seq!['='] + value);
        assert forall|i: int| 0 <= i < key.len() implies body[i] != '=' by {
            assert(body[i] == key[i]);
        }
        assert(body[key.len() as int] == '=');
        lemma_find(body, '=', 0, key.len() as int);
        assert(body.subrange(0, key.len() as int) =~= key);
        assert(body.subrange(key.len() as int + 1, body.len() as int) =~= value);
        assert(m.with_line(body) == m.with_pair(key, value));
        assert forall|i: int| 0 <= i < rest.len() implies {
            &&& free_of((#[trigger] rest[i]).0, '=')
            &&& free_of(rest[i].0, '\n')
            &&& free_of(rest[i].1, '\n')
        } by {
            assert(rest[i] == pairs[i + 1]);
        }
        lines_read_back(m.with_pair(key, value), before + line, rest);
        assert(text =~= (before + line) + lines_of(rest));
        if end + 1 >= text.len() {
            assert(lines_of(rest).len() == 0);
            if rest.len() > 0 {
                assert(lines_of(rest).len() >= line_of(rest[0].0, rest[0].1).len());
            }
        }
    } else {
        assert(text =~= before);
    }
}

/// Reading what was written gives the settings back, where no binding
/// holds a line feed.
pub proof fn settings_read_back(m: SettingsModel)
    requires
        free_of(m.toggle_box, '\n'),
        free_of(m.toggle_action, '\n'),
        free_of(m.exit_app, '\n'),
    ensures
        SettingsModel::of_text(m.text()) == m,
{
    let pairs = m.pairs();
    lemma_pairs_readable(m);
    lines_read_back(SettingsModel::defaults(), Seq::empty(), pairs);
    assert(Seq::<char>::empty() + lines_of(pairs) =~= m.text());
    lemma_with_pairs_upto(SettingsModel::defaults(), pairs, 18);
    assert(pairs.take(18) =~= pairs);
    lemma_all_pairs_set(m);
}

/// The pairs of settings, taken in turn from the defaults, give the
/// settings.
proof fn lemma_all_pairs_set(m: SettingsModel)
    ensures
        SettingsModel::defaults().with_pairs_upto(m.pairs(), 18) == m,
{
    let pairs = m.pairs();
    assert(SettingsModel::defaults().with_pairs_upto(pairs, 0) == SettingsModel::defaults());
    let s0 = SettingsModel::defaults();
    let s1 = s0.with_pair(pairs[0].0, pairs[0].1);
    assert(s1 == (SettingsModel { toggle_box: m.toggle_box, ..s0 })) by {
        lemma_pair_sets(s0, m);
    }
    assert(s0.with_pairs_upto(pairs, 1) == s1);
    let s2 = s1.with_pair(pairs[1].0, pairs[1].1);
    assert(s2 == (SettingsModel { toggle_action: m.toggle_action, ..s1 })) by {
        lemma_pair_sets(s1, m);
    }
    assert(s0.with_pairs_upto(pairs, 2) == s2);
    let s3 = s2.with_pair(pairs[2].0, pairs[2].1);
    assert(s3 == (SettingsModel { exit_app: m.exit_app, ..s2 })) by {
        lemma_pair_sets(s2, m);
    }
    assert(s0.with_pairs_upto(pairs, 3) == s3);
    let s4 = s3.with_pair(pairs[3].0, pairs[3].1);
    assert(s4 == (SettingsModel { enable_overlay: m.enable_overlay, ..s3 })) by {
        lemma_pair_sets(s3, m);
    }
    assert(s0.with_pairs_upto(pairs, 4) == s4);
    let s5 = s4.with_pair(pairs[4].0, pairs[4].1);
    assert(s5 == (SettingsModel { status_x: m.status_x, ..s4 })) by {
        lemma_pair_sets(s4, m);
    }
    assert(s0.with_pairs_upto(pairs, 5) == s5);
    let s6 = s5.with_pair(pairs[5].0, pairs[5].1);
    assert(s6 == (SettingsModel { status_y: m.status_y, ..s5 })) by {
        lemma_pair_sets(s5, m);
    }
    assert(s0.with_pairs_upto(pairs, 6) == s6);
    let s7 = s6.with_pair(pairs[6].0, pairs[6].1);
    assert(s7 == (SettingsModel {
        region: CaptureRegion { x: m.region.x, ..s6.region },
        ..s6
    })) by {
        lemma_pair_sets(s6, m);
    }
    assert(s0.with_pairs_upto(pairs, 7) == s7);
    let s8 = s7.with_pair(pairs[7].0, pairs[7].1);
    assert(s8 == (SettingsModel {
        region: CaptureRegion { y: m.region.y, ..s7.region },
        ..s7
    })) by {
        lemma_pair_sets(s7, m);
    }
    assert(s0.with_pairs_upto(pairs, 8) == s8);
    let s9 = s8.with_pair(pairs[8].0, pairs[8].1);
    assert(s9 == (SettingsModel {
        region: CaptureRegion { width: m.region.width, ..s8.region },
        ..s8
    })) by {
        lemma_pair_sets(s8, m);
    }
    assert(s0.with_pairs_upto(pairs, 9) == s9);
    let s10 = s9.with_pair(pairs[9].0, pairs[9].1);
    assert(s10 == (SettingsModel {
        region: CaptureRegion { height: m.region.height, ..s9.region },
        ..s9
    })) by {
        lemma_pair_sets(s9, m);
    }
    assert(s0.with_pairs_upto(pairs, 10) == s10);
    let s11 = s10.with_pair(pairs[10].0, pairs[10].1);
    assert(s11 == (SettingsModel {
        thresholds: Thresholds {
            target: Rgb { r: m.thresholds.target.r, ..s10.thresholds.target },
            ..s10.thresholds
        },
        ..s10
    })) by {
        lemma_pair_sets(s10, m);
    }
    assert(s0.with_pairs_upto(pairs, 11) == s11);
    let s12 = s11.with_pair(pairs[11].0, pairs[11].1);
    assert(s12 == (SettingsModel {
        thresholds: Thresholds {
            target: Rgb { g: m.thresholds.target.g, ..s11.thresholds.target },
            ..s11.thresholds
        },
        ..s11
    })) by {
        lemma_pair_sets(s11, m);
    }
    assert(s0.with_pairs_upto(pairs, 12) == s12);
    let s13 = s12.with_pair(pairs[12].0, pairs[12].1);
    assert(s13 == (SettingsModel {
        thresholds: Thresholds {
            target: Rgb { b: m.thresholds.target.b, ..s12.thresholds.target },
            ..s12.thresholds
        },
        ..s12
    })) by {
        lemma_pair_sets(s12, m);
    }
    assert(s0.with_pairs_upto(pairs, 13) == s13);
    let s14 = s13.with_pair(pairs[13].0, pairs[13].1);
    assert(s14 == (SettingsModel {
        thresholds: Thresholds { tolerance: m.thresholds.tolerance, ..s13.thresholds },
        ..s13
    })) by {
        lemma_pair_sets(s13, m);
    }
    assert(s0.with_pairs_upto(pairs, 14) == s14);
    let s15 = s14.with_pair(pairs[14].0, pairs[14].1);
    assert(s15 == (SettingsModel {
        thresholds: Thresholds { debounce_ticks: m.thresholds.debounce_ticks, ..s14.thresholds },
        ..s14
    })) by {
        lemma_pair_sets(s14, m);
    }
    assert(s0.with_pairs_upto(pairs, 15) == s15);
    let s16 = s15.with_pair(pairs[15].0, pairs[15].1);
    assert(s16 == (SettingsModel {
        thresholds: Thresholds { cooldown_ms: m.thresholds.cooldown_ms, ..s15.thresholds },
        ..s15
    })) by {
        lemma_pair_sets(s15, m);
    }
    assert(s0.with_pairs_upto(pairs, 16) == s16);
    let s17 = s16.with_pair(pairs[16].0, pairs[16].1);
    assert(s17 == (SettingsModel {
        thresholds: Thresholds { max_hold_ms: m.thresholds.max_hold_ms, ..s16.thresholds },
        ..s16
    })) by {
        lemma_pair_sets(s16, m);
    }
    assert(s0.with_pairs_upto(pairs, 17) == s17);
    let s18 = s17.with_pair(pairs[17].0, pairs[17].1);
    assert(s18 == (SettingsModel { tick_interval_ms: m.tick_interval_ms, ..s17 })) by {
        lemma_pair_sets(s17, m);
    }
    assert(s0.with_pairs_upto(pairs, 18) == s18);
    assert(s18.region == m.region);
    assert(s18.thresholds.target == m.thresholds.target);
    assert(s18.thresholds == m.thresholds);
    assert(s18 == m);
}

/// The first `n` pairs, taken in turn, are the list of those pairs taken
/// in turn.
proof fn lemma_with_pairs_upto(m: SettingsModel, pairs: Seq<(Seq<char>, Seq<char>)>, n: nat)
    requires
        n <= pairs.len(),
    ensures
        m.with_pairs_upto(pairs, n) == m.with_pairs(pairs.take(n as int)),
    decreases n,
{
    if n > 0 {
        lemma_with_pairs_upto(m, pairs, (n - 1) as nat);
        lemma_with_pairs_push(m, pairs.take(n - 1), pairs[n - 1]);
        assert(pairs.take(n - 1).push(pairs[n - 1]) =~= pairs.take(n as int));
    } else {
        assert(pairs.take(0).len() == 0);
    }
}

/// A pair more at the end of a list is taken last.
proof fn lemma_with_pairs_push(
    m: SettingsModel,
    pairs: Seq<(Seq<char>, Seq<char>)>,
    last: (Seq<char>, Seq<char>),
)
    ensures
        m.with_pairs(pairs.push(last)) == m.with_pairs(pairs).with_pair(last.0, last.1),
    decreases pairs.len(),
{
    let all = pairs.push(last);
    if pairs.len() == 0 {
        assert(all.skip(1).len() == 0);
        assert(all[0] == last);
        assert(m.with_pair(last.0, last.1).with_pairs(all.skip(1)) == m.with_pair(last.0, last.1));
    } else {
        lemma_with_pairs_push(m.with_pair(pairs[0].0, pairs[0].1), pairs.skip(1), last);
        assert(all.skip(1) =~= pairs.skip(1).push(last));
        assert(all[0] == pairs[0]);
    }
}

/// What each pair of the settings `m` does to any settings `a`: it sets
/// the value that its key names, and nothing else.
proof fn lemma_pair_sets(a: SettingsModel, m: SettingsModel)
    ensures
        a.with_pair("toggle_box"@, m.toggle_box) == (SettingsModel {
            toggle_box: m.toggle_box,
            ..a
        }),
        a.with_pair("toggle_action"@, m.toggle_action) == (SettingsModel {
            toggle_action: m.toggle_action,
            ..a
        }),
        a.with_pair("exit_app"@, m.exit_app) == (SettingsModel { exit_app: m.exit_app, ..a }),
        a.with_pair("enable_overlay"@, if m.enable_overlay {
            "true"@
        } else {
            "false"@
        }) == (SettingsModel { enable_overlay: m.enable_overlay, ..a }),
        a.with_pair("status_x"@, decimal_text(m.status_x as int)) == (SettingsModel {
            status_x: m.status_x,
            ..a
        }),
        a.with_pair("status_y"@, decimal_text(m.status_y as int)) == (SettingsModel {
            status_y: m.status_y,
            ..a
        }),
        a.with_pair("capture_x"@, decimal_text(m.region.x as int)) == (SettingsModel {
            region: CaptureRegion { x: m.region.x, ..a.region },
            ..a
        }),
        a.with_pair("capture_y"@, decimal_text(m.region.y as int)) == (SettingsModel {
            region: CaptureRegion { y: m.region.y, ..a.region },
            ..a
        }),
        a.with_pair("capture_width"@, decimal_text(m.region.width as int)) == (SettingsModel {
            region: CaptureRegion { width: m.region.width, ..a.region },
            ..a
        }),
        a.with_pair("capture_height"@, decimal_text(m.region.height as int)) == (SettingsModel {
            region: CaptureRegion { height: m.region.height, ..a.region },
            ..a
        }),
        a.with_pair("target_r"@, decimal_text(m.thresholds.target.r as int)) == (SettingsModel {
            thresholds: Thresholds {
                target: Rgb { r: m.thresholds.target.r, ..a.thresholds.target },
                ..a.thresholds
            },
            ..a
        }),
        a.with_pair("target_g"@, decimal_text(m.thresholds.target.g as int)) == (SettingsModel {
            thresholds: Thresholds {
                target: Rgb { g: m.thresholds.target.g, ..a.thresholds.target },
                ..a.thresholds
            },
            ..a
        }),
        a.with_pair("target_b"@, decimal_text(m.thresholds.target.b as int)) == (SettingsModel {
            thresholds: Thresholds {
                target: Rgb { b: m.thresholds.target.b, ..a.thresholds.target },
                ..a.thresholds
            },
            ..a
        }),
        a.with_pair("tolerance"@, decimal_text(m.thresholds.tolerance as int)) == (SettingsModel {
            thresholds: Thresholds { tolerance: m.thresholds.tolerance, ..a.thresholds },
            ..a
        }),
        a.with_pair("debounce_ticks"@, decimal_text(m.thresholds.debounce_ticks as int))
            == (SettingsModel {
            thresholds: Thresholds { debounce_ticks: m.thresholds.debounce_ticks, ..a.thresholds },
            ..a
        }),
        a.with_pair("cooldown_ms"@, decimal_text(m.thresholds.cooldown_ms as int))
            == (SettingsModel {
            thresholds: Thresholds { cooldown_ms: m.thresholds.cooldown_ms, ..a.thresholds },
            ..a
        }),
        a.with_pair("max_hold_ms"@, decimal_text(m.thresholds.max_hold_ms as int))
            == (SettingsModel {
            thresholds: Thresholds { max_hold_ms: m.thresholds.max_hold_ms, ..a.thresholds },
            ..a
        }),
        a.with_pair("tick_interval_ms"@, decimal_text(m.tick_interval_ms as int))
            == (SettingsModel { tick_interval_ms: m.tick_interval_ms, ..a }),
{
    reveal_strlit("toggle_box");
    reveal_strlit("toggle_action");
    reveal_strlit("exit_app");
    reveal_strlit("enable_overlay");
    reveal_strlit("status_x");
    reveal_strlit("status_y");
    reveal_strlit("capture_x");
    reveal_strlit("capture_y");
    reveal_strlit("capture_width");
    reveal_strlit("capture_height");
    reveal_strlit("target_r");
    reveal_strlit("target_g");
    reveal_strlit("target_b");
    reveal_strlit("tolerance");
    reveal_strlit("debounce_ticks");
    reveal_strlit("cooldown_ms");
    reveal_strlit("max_hold_ms");
    reveal_strlit("tick_interval_ms");
    reveal_strlit("true");
    reveal_strlit("false");
    assert("toggle_box"@.len() == 10);
    assert("toggle_box"@[0] == 't' && "toggle_box"@[9] == 'x');
    assert("toggle_action"@.len() == 13);
    assert("toggle_action"@[0] == 't' && "toggle_action"@[12] == 'n');
    assert("exit_app"@.len() == 8);
    assert("exit_app"@[0] == 'e' && "exit_app"@[7] == 'p');
    assert("enable_overlay"@.len() == 14);
    assert("enable_overlay"@[0] == 'e' && "enable_overlay"@[13] == 'y');
    assert("status_x"@.len() == 8);
    assert("status_x"@[0] == 's' && "status_x"@[7] == 'x');
    assert("status_y"@.len() == 8);
    assert("status_y"@[0] == 's' && "status_y"@[7] == 'y');
    assert("capture_x"@.len() == 9);
    assert("capture_x"@[0] == 'c' && "capture_x"@[8] == 'x');
    assert("capture_y"@.len() == 9);
    assert("capture_y"@[0] == 'c' && "capture_y"@[8] == 'y');
    assert("capture_width"@.len() == 13);
    assert("capture_width"@[0] == 'c' && "capture_width"@[12] == 'h');
    assert("capture_height"@.len() == 14);
    assert("capture_height"@[0] == 'c' && "capture_height"@[13] == 't');
    assert("target_r"@.len() == 8);
    assert("target_r"@[0] == 't' && "target_r"@[7] == 'r');
    assert("target_g"@.len() == 8);
    assert("target_g"@[0] == 't' && "target_g"@[7] == 'g');
    assert("target_b"@.len() == 8);
    assert("target_b"@[0] == 't' && "target_b"@[7] == 'b');
    assert("tolerance"@.len() == 9);
    assert("tolerance"@[0] == 't' && "tolerance"@[8] == 'e');
    assert("debounce_ticks"@.len() == 14);
    assert("debounce_ticks"@[0] == 'd' && "debounce_ticks"@[13] == 's');
    assert("cooldown_ms"@.len() == 11);
    assert("cooldown_ms"@[0] == 'c' && "cooldown_ms"@[10] == 's');
    assert("max_hold_ms"@.len() == 11);
    assert("max_hold_ms"@[0] == 'm' && "max_hold_ms"@[10] == 's');
    assert("tick_interval_ms"@.len() == 16);
    assert("tick_interval_ms"@[0] == 't' && "tick_interval_ms"@[15] == 's');
    assert("true"@.len() == 4 && "false"@.len() == 5);
    decimal_text_reads_back(m.status_x as int);
    decimal_text_reads_back(m.status_y as int);
    decimal_text_reads_back(m.region.x as int);
    decimal_text_reads_back(m.region.y as int);
    decimal_text_reads_back(m.region.width as int);
    decimal_text_reads_back(m.region.height as int);
    decimal_text_reads_back(m.thresholds.target.r as int);
    decimal_text_reads_back(m.thresholds.target.g as int);
    decimal_text_reads_back(m.thresholds.target.b as int);
    decimal_text_reads_back(m.thresholds.tolerance as int);
    decimal_text_reads_back(m.thresholds.debounce_ticks as int);
    decimal_text_reads_back(m.thresholds.cooldown_ms as int);
    decimal_text_reads_back(m.thresholds.max_hold_ms as int);
    decimal_text_reads_back(m.tick_interval_ms as int);
}

/// The pairs of settings whose bindings hold no line feed are readable.
proof fn lemma_pairs_readable(m: SettingsModel)
    requires
        free_of(m.toggle_box, '\n'),
        free_of(m.toggle_action, '\n'),
        free_of(m.exit_app, '\n'),
    ensures
        readable(m.pairs()),
        m.pairs().len() == 18,
{
    let pairs = m.pairs();
    reveal_strlit("toggle_box");
    reveal_strlit("toggle_action");
    reveal_strlit("exit_app");
    reveal_strlit("enable_overlay");
    reveal_strlit("status_x");
    reveal_strlit("status_y");
    reveal_strlit("capture_x");
    reveal_strlit("capture_y");
    reveal_strlit("capture_width");
    reveal_strlit("capture_height");
    reveal_strlit("target_r");
    reveal_strlit("target_g");
    reveal_strlit("target_b");
    reveal_strlit("tolerance");
    reveal_strlit("debounce_ticks");
    reveal_strlit("cooldown_ms");
    reveal_strlit("max_hold_ms");
    reveal_strlit("tick_interval_ms");
    reveal_strlit("true");
    reveal_strlit("false");
    lemma_decimal_has_no_line_feed(m.status_x as int);
    lemma_decimal_has_no_line_feed(m.status_y as int);
    lemma_decimal_has_no_line_feed(m.region.x as int);
    lemma_decimal_has_no_line_feed(m.region.y as int);
    lemma_decimal_has_no_line_feed(m.region.width as int);
    lemma_decimal_has_no_line_feed(m.region.height as int);
    lemma_decimal_has_no_line_feed(m.thresholds.target.r as int);
    lemma_decimal_has_no_line_feed(m.thresholds.target.g as int);
    lemma_decimal_has_no_line_feed(m.thresholds.target.b as int);
    lemma_decimal_has_no_line_feed(m.thresholds.tolerance as int);
    lemma_decimal_has_no_line_feed(m.thresholds.debounce_ticks as int);
    lemma_decimal_has_no_line_feed(m.thresholds.cooldown_ms as int);
    lemma_decimal_has_no_line_feed(m.thresholds.max_hold_ms as int);
    lemma_decimal_has_no_line_feed(m.tick_interval_ms as int);
    assert forall|i: int| 0 <= i < pairs.len() implies {
        &&& free_of((#[trigger] pairs[i]).0, '=')
        &&& free_of(pairs[i].0, '\n')
        &&& free_of(pairs[i].1, '\n')
    } by {
        if i == 0 {
            assert(pairs[0].0 == "toggle_box"@);
        } else if i == 1 {
            assert(pairs[1].0 == "toggle_action"@);
        } else if i == 2 {
            assert(pairs[2].0 == "exit_app"@);
        } else if i == 3 {
            assert(pairs[3].0 == "enable_overlay"@);
        } else if i == 4 {
            assert(pairs[4].0 == "status_x"@);
        } else if i == 5 {
            assert(pairs[5].0 == "status_y"@);
        } else if i == 6 {
            assert(pairs[6].0 == "capture_x"@);
        } else if i == 7 {
            assert(pairs[7].0 == "capture_y"@);
        } else if i == 8 {
            assert(pairs[8].0 == "capture_width"@);
        } else if i == 9 {
            assert(pairs[9].0 == "capture_height"@);
        } else if i == 10 {
            assert(pairs[10].0 == "target_r"@);
        } else if i == 11 {
            assert(pairs[11].0 == "target_g"@);
        } else if i == 12 {
            assert(pairs[12].0 == "target_b"@);
        } else if i == 13 {
            assert(pairs[13].0 == "tolerance"@);
        } else if i == 14 {
            assert(pairs[14].0 == "debounce_ticks"@);
        } else if i == 15 {
            assert(pairs[15].0 == "cooldown_ms"@);
        } else if i == 16 {
            assert(pairs[16].0 == "max_hold_ms"@);
        } else if i == 17 {
            assert(pairs[17].0 == "tick_interval_ms"@);
        }
    }
}

/// The text of a number holds no line feed.
proof fn lemma_decimal_has_no_line_feed(v: int)
    ensures
        free_of(decimal_text(v), '\n'),
{
    if v < 0 {
        lemma_digits_read_back((-v) as nat);
        let d = digits_of((-v) as nat);
        assert forall|i: int| 0 <= i < decimal_text(v).len() implies #[trigger] decimal_text(v)[i]
            != '\n' by {
            if i > 0 {
                assert(decimal_text(v)[i] == d[i - 1]);
                assert(is_digit(d[i - 1]));
            }
        }
    } else {
        lemma_digits_read_back(v as nat);
        let d = digits_of(v as nat);
        assert forall|i: int| 0 <= i < d.len() implies #[trigger] d[i] != '\n' by {
            assert(is_digit(d[i]));
        }
    }
}

/// Where `c` stands at place `at` and nowhere from `from` up to it, the
/// search from `from` finds it there.
proof fn lemma_find(s: Seq<char>, c: char, from: int, at: int)
    requires
        0 <= from <= at < s.len(),
        s[at] == c,
        forall|i: int| from <= i < at ==> s[i] != c,
    ensures
        find_char(s, c, from) == at,
    decreases at - from,
{
    if from < at {
        lemma_find(s, c, from + 1, at);
    }
}

/// A run of digits stands for no less than any of its beginnings.
proof fn lemma_digits_grow(s: Seq<char>, n: int)
    requires
        0 <= n <= s.len(),
        forall|i: int| 0 <= i < s.len() ==> is_digit(#[trigger] s[i]),
    ensures
        0 <= digits_value(s.take(n)) <= digits_value(s),
    decreases s.len() - n,
{
    lemma_digits_not_negative(s.take(n));
    if n == s.len() {
        assert(s.take(n) =~= s);
    } else {
        lemma_digits_grow(s.drop_last(), n);
        assert(s.drop_last().take(n) =~= s.take(n));
    }
}

/// A run of digits stands for no number below zero.
proof fn lemma_digits_not_negative(s: Seq<char>)
    requires
        forall|i: int| 0 <= i < s.len() ==> is_digit(#[trigger] s[i]),
    ensures
        0 <= digits_value(s),
    decreases s.len(),
{
    if s.len() > 0 {
        lemma_digits_not_negative(s.drop_last());
    }
}

} // verus!
