//! Hotkey bindings: from the text of a binding to a key, from a key to
//! the id under which the system reports it, and from a reported id to
//! what the shell does.

use crate::keys::KeyCode;
use global_hotkey::hotkey::{Code, HotKey};
use std::str::FromStr;
use vstd::prelude::*;
use vstd::string::*;

verus! {

/// What a hotkey event asks of the shell.
#[derive(Clone, Copy, Debug, PartialEq, Eq, Structural)]
pub enum HotkeyAction {
    /// Show or hide the capture box.
    ToggleCaptureBox,
    /// Switch the loop on or off.
    ToggleActive,
    /// Leave the program.
    Exit,
    /// Not a release, or a key that is not bound.
    Ignore,
}

/// The ids under which the system reports the three bound keys. They are
/// worked out when the bindings are set, not on every event.
#[derive(Clone, Copy, Debug, PartialEq, Eq, Structural)]
pub struct BoundIds {
    /// The key that shows or hides the capture box.
    pub toggle_box: Option<u32>,
    /// The key that switches the loop on or off.
    pub toggle_action: Option<u32>,
    /// The key that ends the program.
    pub exit_app: Option<u32>,
}

/// What the shell shows and the switch it holds.
#[derive(Clone, Copy, Debug, PartialEq, Eq, Structural)]
pub struct ShellState {
    /// The capture box is on the screen.
    pub show_capture_box: bool,
    /// The loop is switched on.
    pub active: bool,
}

/// The white-space characters of Unicode, which `str::trim` removes.
pub open spec fn is_white_space(c: char) -> bool {
    let n = c as u32;
    ||| 0x09 <= n <= 0x0d
    ||| n == 0x20
    ||| n == 0x85
    ||| n == 0xa0
    ||| n == 0x1680
    ||| 0x2000 <= n <= 0x200a
    ||| n == 0x2028
    ||| n == 0x2029
    ||| n == 0x202f
    ||| n == 0x205f
    ||| n == 0x3000
}

/// `s` without the white space that it starts with.
pub open spec fn trim_start_spec(s: Seq<char>) -> Seq<char>
    decreases s.len(),
{
    if s.len() > 0 && is_white_space(s[0]) {
        trim_start_spec(s.skip(1))
    } else {
        s
    }
}

/// `s` without the white space that it ends with.
pub open spec fn trim_end_spec(s: Seq<char>) -> Seq<char>
    decreases s.len(),
{
    if s.len() > 0 && is_white_space(s.last()) {
        trim_end_spec(s.drop_last())
    } else {
        s
    }
}

/// `s` without the white space around it.
pub open spec fn trim_spec(s: Seq<char>) -> Seq<char> {
    trim_end_spec(trim_start_spec(s))
}

/// The upper-case form of a text, as `str::to_uppercase` gives it.
pub uninterp spec fn uppercased(s: Seq<char>) -> Seq<char>;

/// The id that the system reports for the key with the given code name
/// when it is bound without modifiers; `None` where there is no key of
/// that name.
pub uninterp spec fn registered_id(code_name: Seq<char>) -> Option<u32>;

/// The key that an upper-case letter names.
pub open spec fn letter_key(c: char) -> Option<KeyCode> {
    if c == 'A' {
        Some(KeyCode::KeyA)
    } else if c == 'B' {
        Some(KeyCode::KeyB)
    } else if c == 'C' {
        Some(KeyCode::KeyC)
    } else if c == 'D' {
        Some(KeyCode::KeyD)
    } else if c == 'E' {
        Some(KeyCode::KeyE)
    } else if c == 'F' {
        Some(KeyCode::KeyF)
    } else if c == 'G' {
        Some(KeyCode::KeyG)
    } else if c == 'H' {
        Some(KeyCode::KeyH)
    } else if c == 'I' {
        Some(KeyCode::KeyI)
    } else if c == 'J' {
        Some(KeyCode::KeyJ)
    } else if c == 'K' {
        Some(KeyCode::KeyK)
    } else if c == 'L' {
        Some(KeyCode::KeyL)
    } else if c == 'M' {
        Some(KeyCode::KeyM)
    } else if c == 'N' {
        Some(KeyCode::KeyN)
    } else if c == 'O' {
        Some(KeyCode::KeyO)
    } else if c == 'P' {
        Some(KeyCode::KeyP)
    } else if c == 'Q' {
        Some(KeyCode::KeyQ)
    } else if c == 'R' {
        Some(KeyCode::KeyR)
    } else if c == 'S' {
        Some(KeyCode::KeyS)
    } else if c == 'T' {
        Some(KeyCode::KeyT)
    } else if c == 'U' {
        Some(KeyCode::KeyU)
    } else if c == 'V' {
        Some(KeyCode::KeyV)
    } else if c == 'W' {
        Some(KeyCode::KeyW)
    } else if c == 'X' {
        Some(KeyCode::KeyX)
    } else if c == 'Y' {
        Some(KeyCode::KeyY)
    } else if c == 'Z' {
        Some(KeyCode::KeyZ)
    } else {
        None
    }
}

/// The key that a name in upper case stands for: `F1` to `F12`, `ENTER`,
/// `SPACE`, or a single letter. Any other text stands for `F3`.
pub open spec fn key_named(name: Seq<char>) -> KeyCode {
    if name == "F1"@ {
        KeyCode::F1
    } else if name == "F2"@ {
        KeyCode::F2
    } else if name == "F3"@ {
        KeyCode::F3
    } else if name == "F4"@ {
        KeyCode::F4
    } else if name == "F5"@ {
        KeyCode::F5
    } else if name == "F6"@ {
        KeyCode::F6
    } else if name == "F7"@ {
        KeyCode::F7
    } else if name == "F8"@ {
        KeyCode::F8
    } else if name == "F9"@ {
        KeyCode::F9
    } else if name == "F10"@ {
        KeyCode::F10
    } else if name == "F11"@ {
        KeyCode::F11
    } else if name == "F12"@ {
        KeyCode::F12
    } else if name == "ENTER"@ {
        KeyCode::Enter
    } else if name == "SPACE"@ {
        KeyCode::Space
    } else if name.len() == 1 {
        match letter_key(name[0]) {
            Some(key) => key,
            None => KeyCode::F3,
        }
    } else {
        KeyCode::F3
    }
}

/// The name of a key's code, as the keyboard standard of the web spells it.
pub open spec fn code_name_spec(key: KeyCode) -> Seq<char> {
    match key {
        KeyCode::F1 => "F1"@,
        KeyCode::F2 => "F2"@,
        KeyCode::F3 => "F3"@,
        KeyCode::F4 => "F4"@,
        KeyCode::F5 => "F5"@,
        KeyCode::F6 => "F6"@,
        KeyCode::F7 => "F7"@,
        KeyCode::F8 => "F8"@,
        KeyCode::F9 => "F9"@,
        KeyCode::F10 => "F10"@,
        KeyCode::F11 => "F11"@,
        KeyCode::F12 => "F12"@,
        KeyCode::Enter => "Enter"@,
        KeyCode::Space => "Space"@,
        KeyCode::KeyA => "KeyA"@,
        KeyCode::KeyB => "KeyB"@,
        KeyCode::KeyC => "KeyC"@,
        KeyCode::KeyD => "KeyD"@,
        KeyCode::KeyE => "KeyE"@,
        KeyCode::KeyF => "KeyF"@,
        KeyCode::KeyG => "KeyG"@,
        KeyCode::KeyH => "KeyH"@,
        KeyCode::KeyI => "KeyI"@,
        KeyCode::KeyJ => "KeyJ"@,
        KeyCode::KeyK => "KeyK"@,
        KeyCode::KeyL => "KeyL"@,
        KeyCode::KeyM => "KeyM"@,
        KeyCode::KeyN => "KeyN"@,
        KeyCode::KeyO => "KeyO"@,
        KeyCode::KeyP => "KeyP"@,
        KeyCode::KeyQ => "KeyQ"@,
        KeyCode::KeyR => "KeyR"@,
        KeyCode::KeyS => "KeyS"@,
        KeyCode::KeyT => "KeyT"@,
        KeyCode::KeyU => "KeyU"@,
        KeyCode::KeyV => "KeyV"@,
        KeyCode::KeyW => "KeyW"@,
        KeyCode::KeyX => "KeyX"@,
        KeyCode::KeyY => "KeyY"@,
        KeyCode::KeyZ => "KeyZ"@,
    }
}

/// The key that the text of a binding stands for.
pub open spec fn parsed_key(text: Seq<char>) -> KeyCode {
    key_named(uppercased(trim_spec(text)))
}

/// The id under which the system reports the key that `text` binds.
pub open spec fn bound_id(text: Seq<char>) -> Option<u32> {
    registered_id(code_name_spec(parsed_key(text)))
}

/// What an event asks for, given the ids of the three bindings. Only the
/// release of a key counts; of bindings with the same id the first wins.
pub open spec fn action_for_spec(
    event_id: u32,
    released: bool,
    toggle_box: Option<u32>,
    toggle_action: Option<u32>,
    exit_app: Option<u32>,
) -> HotkeyAction {
    if !released {
        HotkeyAction::Ignore
    } else if toggle_box == Some(event_id) {
        HotkeyAction::ToggleCaptureBox
    } else if toggle_action == Some(event_id) {
        HotkeyAction::ToggleActive
    } else if exit_app == Some(event_id) {
        HotkeyAction::Exit
    } else {
        HotkeyAction::Ignore
    }
}

impl BoundIds {
    /// The ids of the keys that the three texts bind.
    pub open spec fn of_texts(
        toggle_box: Seq<char>,
        toggle_action: Seq<char>,
        exit_app: Seq<char>,
    ) -> BoundIds {
        BoundIds {
            toggle_box: bound_id(toggle_box),
            toggle_action: bound_id(toggle_action),
            exit_app: bound_id(exit_app),
        }
    }

    /// Works out the ids of the keys that the three texts bind, as the
    /// configuration holds them.
    pub fn resolve(toggle_box: &str, toggle_action: &str, exit_app: &str) -> (ids: BoundIds)
        ensures
            ids == Self::of_texts(toggle_box@, toggle_action@, exit_app@),
    {
        BoundIds {
            toggle_box: hotkey_id(parse_hotkey(toggle_box)),
            toggle_action: hotkey_id(parse_hotkey(toggle_action)),
            exit_app: hotkey_id(parse_hotkey(exit_app)),
        }
    }

    /// What an event asks for.
    pub fn action(&self, event_id: u32, released: bool) -> (action: HotkeyAction)
        ensures
            action == action_for_spec(
                event_id,
                released,
                self.toggle_box,
                self.toggle_action,
                self.exit_app,
            ),
    {
        action_for(event_id, released, self.toggle_box, self.toggle_action, self.exit_app)
    }
}

impl ShellState {
    /// The shell after an action.
    pub open spec fn applied(self, action: HotkeyAction) -> ShellState {
        match action {
            HotkeyAction::ToggleCaptureBox => ShellState {
                show_capture_box: !self.show_capture_box,
                ..self
            },
            HotkeyAction::ToggleActive => ShellState { active: !self.active, ..self },
            _ => self,
        }
    }

    /// Carries out an action on the shell's state and says whether the
    /// program is to end.
    pub fn apply(&mut self, action: HotkeyAction) -> (exit: bool)
        ensures
            *final(self) == old(self).applied(action),
            exit == (action == HotkeyAction::Exit),
    {
        match action {
            HotkeyAction::ToggleCaptureBox => {
                self.show_capture_box = !self.show_capture_box;
                false
            },
            HotkeyAction::ToggleActive => {
                self.active = !self.active;
                false
            },
            HotkeyAction::Exit => true,
            HotkeyAction::Ignore => false,
        }
    }
}

/// `str::trim` of std: the text without the Unicode white space at its
/// two ends.
#[verifier::external_body]
fn trimmed(s: &str) -> (r: &str)
    ensures
        r@ == trim_spec(s@),
{
    s.trim()
}

/// `str::to_uppercase` of std: the contract only names the result.
#[verifier::external_body]
fn to_upper(s: &str) -> (r: String)
    ensures
        r@ == uppercased(s@),
{
    s.to_uppercase()
}

/// `HotKey::new(None, code).id()` of global-hotkey, for the code that
/// `Code::from_str` finds under `code_name`: the id is a function of the
/// code alone, and the contract only names it. A name that is no code's
/// gives `None`.
#[verifier::external_body]
fn id_of_code_name(code_name: &str) -> (id: Option<u32>)
    ensures
        id == registered_id(code_name@),
{
    match Code::from_str(code_name) {
        Ok(code) => Some(HotKey::new(None, code).id()),
        Err(_) => None,
    }
}

/// Whether two texts are the same, character by character.
pub fn same_text(a: &str, b: &str) -> (same: bool)
    ensures
        same == (a@ == b@),
{
    let n: usize = a.unicode_len();
    if n != b.unicode_len() {
        return false;
    }
    let mut i: usize = 0;
    while i < n
        invariant
            i <= n,
            n == a@.len(),
            n == b@.len(),
            forall|k: int| 0 <= k < i ==> a@[k] == b@[k],
        decreases n - i,
    {
        if a.get_char(i) != b.get_char(i) {
            return false;
        }
        i += 1;
    }
    assert(a@ =~= b@);
    true
}

/// The key that an upper-case letter names.
pub fn key_for_letter(c: char) -> (key: Option<KeyCode>)
    ensures
        key == letter_key(c),
{
    match c {
        'A' => Some(KeyCode::KeyA),
        'B' => Some(KeyCode::KeyB),
        'C' => Some(KeyCode::KeyC),
        'D' => Some(KeyCode::KeyD),
        'E' => Some(KeyCode::KeyE),
        'F' => Some(KeyCode::KeyF),
        'G' => Some(KeyCode::KeyG),
        'H' => Some(KeyCode::KeyH),
        'I' => Some(KeyCode::KeyI),
        'J' => Some(KeyCode::KeyJ),
        'K' => Some(KeyCode::KeyK),
        'L' => Some(KeyCode::KeyL),
        'M' => Some(KeyCode::KeyM),
        'N' => Some(KeyCode::KeyN),
        'O' => Some(KeyCode::KeyO),
        'P' => Some(KeyCode::KeyP),
        'Q' => Some(KeyCode::KeyQ),
        'R' => Some(KeyCode::KeyR),
        'S' => Some(KeyCode::KeyS),
        'T' => Some(KeyCode::KeyT),
        'U' => Some(KeyCode::KeyU),
        'V' => Some(KeyCode::KeyV),
        'W' => Some(KeyCode::KeyW),
        'X' => Some(KeyCode::KeyX),
        'Y' => Some(KeyCode::KeyY),
        'Z' => Some(KeyCode::KeyZ),
        _ => None,
    }
}

/// The key that a name in upper case stands for; `F3` where it stands
/// for none.
pub fn key_for_name(name: &str) -> (key: KeyCode)
    ensures
        key == key_named(name@),
{
    if same_text(name, "F1") {
        KeyCode::F1
    } else if same_text(name, "F2") {
        KeyCode::F2
    } else if same_text(name, "F3") {
        KeyCode::F3
    } else if same_text(name, "F4") {
        KeyCode::F4
    } else if same_text(name, "F5") {
        KeyCode::F5
    } else if same_text(name, "F6") {
        KeyCode::F6
    } else if same_text(name, "F7") {
        KeyCode::F7
    } else if same_text(name, "F8") {
        KeyCode::F8
    } else if same_text(name, "F9") {
        KeyCode::F9
    } else if same_text(name, "F10") {
        KeyCode::F10
    } else if same_text(name, "F11") {
        KeyCode::F11
    } else if same_text(name, "F12") {
        KeyCode::F12
    } else if same_text(name, "ENTER") {
        KeyCode::Enter
    } else if same_text(name, "SPACE") {
        KeyCode::Space
    } else if name.unicode_len() == 1 {
        match key_for_letter(name.get_char(0)) {
            Some(key) => key,
            None => KeyCode::F3,
        }
    } else {
        KeyCode::F3
    }
}

/// The name of a key's code.
pub fn code_name(key: KeyCode) -> (name: &'static str)
    ensures
        name@ == code_name_spec(key),
{
    match key {
        KeyCode::F1 => "F1",
        KeyCode::F2 => "F2",
        KeyCode::F3 => "F3",
        KeyCode::F4 => "F4",
        KeyCode::F5 => "F5",
        KeyCode::F6 => "F6",
        KeyCode::F7 => "F7",
        KeyCode::F8 => "F8",
        KeyCode::F9 => "F9",
        KeyCode::F10 => "F10",
        KeyCode::F11 => "F11",
        KeyCode::F12 => "F12",
        KeyCode::Enter => "Enter",
        KeyCode::Space => "Space",
        KeyCode::KeyA => "KeyA",
        KeyCode::KeyB => "KeyB",
        KeyCode::KeyC => "KeyC",
        KeyCode::KeyD => "KeyD",
        KeyCode::KeyE => "KeyE",
        KeyCode::KeyF => "KeyF",
        KeyCode::KeyG => "KeyG",
        KeyCode::KeyH => "KeyH",
        KeyCode::KeyI => "KeyI",
        KeyCode::KeyJ => "KeyJ",
        KeyCode::KeyK => "KeyK",
        KeyCode::KeyL => "KeyL",
        KeyCode::KeyM => "KeyM",
        KeyCode::KeyN => "KeyN",
        KeyCode::KeyO => "KeyO",
        KeyCode::KeyP => "KeyP",
        KeyCode::KeyQ => "KeyQ",
        KeyCode::KeyR => "KeyR",
        KeyCode::KeyS => "KeyS",
        KeyCode::KeyT => "KeyT",
        KeyCode::KeyU => "KeyU",
        KeyCode::KeyV => "KeyV",
        KeyCode::KeyW => "KeyW",
        KeyCode::KeyX => "KeyX",
        KeyCode::KeyY => "KeyY",
        KeyCode::KeyZ => "KeyZ",
    }
}

/// Reads the text of a binding: white space around it and the case of its
/// letters do not count. A text that names no key stands for `F3`.
pub fn parse_hotkey(s: &str) -> (key: KeyCode)
    ensures
        key == parsed_key(s@),
{
    let upper = to_upper(trimmed(s));
    key_for_name(upper.as_str())
}

/// The id under which the system reports a key that is bound without
/// modifiers.
pub fn hotkey_id(key: KeyCode) -> (id: Option<u32>)
    ensures
        id == registered_id(code_name_spec(key)),
{
    id_of_code_name(code_name(key))
}

/// What an event asks for, given the ids of the three bindings.
pub fn action_for(
    event_id: u32,
    released: bool,
    toggle_box: Option<u32>,
    toggle_action: Option<u32>,
    exit_app: Option<u32>,
) -> (action: HotkeyAction)
    ensures
        action == action_for_spec(event_id, released, toggle_box, toggle_action, exit_app),
{
    if !released {
        HotkeyAction::Ignore
    } else if is_id(toggle_box, event_id) {
        HotkeyAction::ToggleCaptureBox
    } else if is_id(toggle_action, event_id) {
        HotkeyAction::ToggleActive
    } else if is_id(exit_app, event_id) {
        HotkeyAction::Exit
    } else {
        HotkeyAction::Ignore
    }
}

/// Whether a binding's id is the given one.
fn is_id(binding: Option<u32>, id: u32) -> (b: bool)
    ensures
        b == (binding == Some(id)),
{
    match binding {
        Some(bound) => bound == id,
        None => false,
    }
}

/// What a hotkey event asks for, given the texts of the three bindings as
/// the configuration holds them.
pub fn on_hotkey(
    event_id: u32,
    released: bool,
    toggle_box: &str,
    toggle_action: &str,
    exit_app: &str,
) -> (action: HotkeyAction)
    ensures
        action == action_for_spec(
            event_id,
            released,
            bound_id(toggle_box@),
            bound_id(toggle_action@),
            bound_id(exit_app@),
        ),
{
    if !released {
        return HotkeyAction::Ignore;
    }
    BoundIds::resolve(toggle_box, toggle_action, exit_app).action(event_id, released)
}

/// The status line of the main window.
pub fn status_message(active: bool) -> (msg: &'static str)
    ensures
        msg@ == if active {
            "Status: Active"@
        } else {
            "Status: Inactive"@
        },
{
    if active {
        "Status: Active"
    } else {
        "Status: Inactive"
    }
}

/// The label of the status overlay.
pub fn overlay_label(active: bool) -> (msg: &'static str)
    ensures
        msg@ == if active {
            "AutoShake: Active"@
        } else {
            "AutoShake: Paused"@
        },
{
    if active {
        "AutoShake: Active"
    } else {
        "AutoShake: Paused"
    }
}

} // verus!
