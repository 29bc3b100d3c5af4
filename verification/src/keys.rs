//! Keys, modifiers and actions: the key-string grammar of the config file
//! (`"ctrl+space"`, `"j"`, `"f12"`), the action names, the canonical form of
//! Shift+letter keys, and the human-readable rendering of a key.
use vstd::prelude::*;
use crate::text::{
    decimal_spec, is_white_space, join3, lowercase_text, parse_u8, parse_u8_spec, push_decimal, str_equal,
    to_lowercase, trim, trim_spec,
};

verus! {

/// A user-facing command that a key can be bound to.
#[derive(Clone, Copy, Debug, PartialEq, Eq, Hash, Structural)]
pub enum Action {
    MoveDown,
    MoveUp,
    FocusTerminal,
    UnfocusTerminal,
    Quit,
    NewWorktree,
    AddRepo,
    OpenEditor,
    Refresh,
    DeleteWorktree,
}

/// A media key.
#[derive(Clone, Copy, Debug, PartialEq, Eq, Hash, Structural)]
pub enum MediaKeyCode {
    Play,
    Pause,
    PlayPause,
    Reverse,
    Stop,
    FastForward,
    Rewind,
    TrackNext,
    TrackPrevious,
    Record,
    LowerVolume,
    RaiseVolume,
    MuteVolume,
}

/// A modifier key pressed on its own.
#[derive(Clone, Copy, Debug, PartialEq, Eq, Hash, Structural)]
pub enum ModifierKeyCode {
    LeftShift,
    LeftControl,
    LeftAlt,
    LeftSuper,
    LeftHyper,
    LeftMeta,
    RightShift,
    RightControl,
    RightAlt,
    RightSuper,
    RightHyper,
    RightMeta,
    IsoLevel3Shift,
    IsoLevel5Shift,
}

/// A key on the keyboard, as the terminal reports it. No key string names a
/// media key or a lone modifier key.
#[derive(Clone, Copy, Debug, PartialEq, Eq, Hash, Structural)]
pub enum KeyCode {
    Backspace,
    Enter,
    Left,
    Right,
    Up,
    Down,
    Home,
    End,
    PageUp,
    PageDown,
    Tab,
    BackTab,
    Delete,
    Insert,
    F(u8),
    Char(char),
    Null,
    Esc,
    CapsLock,
    ScrollLock,
    NumLock,
    PrintScreen,
    Pause,
    Menu,
    KeypadBegin,
    Media(MediaKeyCode),
    Modifier(ModifierKeyCode),
}

/// The name of a media key.
pub open spec fn media_key_name(m: MediaKeyCode) -> Seq<char> {
    match m {
        MediaKeyCode::Play => "Play"@,
        MediaKeyCode::Pause => "Pause"@,
        MediaKeyCode::PlayPause => "PlayPause"@,
        MediaKeyCode::Reverse => "Reverse"@,
        MediaKeyCode::Stop => "Stop"@,
        MediaKeyCode::FastForward => "FastForward"@,
        MediaKeyCode::Rewind => "Rewind"@,
        MediaKeyCode::TrackNext => "TrackNext"@,
        MediaKeyCode::TrackPrevious => "TrackPrevious"@,
        MediaKeyCode::Record => "Record"@,
        MediaKeyCode::LowerVolume => "LowerVolume"@,
        MediaKeyCode::RaiseVolume => "RaiseVolume"@,
        MediaKeyCode::MuteVolume => "MuteVolume"@,
    }
}

/// The name of a lone modifier key.
pub open spec fn modifier_key_name(m: ModifierKeyCode) -> Seq<char> {
    match m {
        ModifierKeyCode::LeftShift => "LeftShift"@,
        ModifierKeyCode::LeftControl => "LeftControl"@,
        ModifierKeyCode::LeftAlt => "LeftAlt"@,
        ModifierKeyCode::LeftSuper => "LeftSuper"@,
        ModifierKeyCode::LeftHyper => "LeftHyper"@,
        ModifierKeyCode::LeftMeta => "LeftMeta"@,
        ModifierKeyCode::RightShift => "RightShift"@,
        ModifierKeyCode::RightControl => "RightControl"@,
        ModifierKeyCode::RightAlt => "RightAlt"@,
        ModifierKeyCode::RightSuper => "RightSuper"@,
        ModifierKeyCode::RightHyper => "RightHyper"@,
        ModifierKeyCode::RightMeta => "RightMeta"@,
        ModifierKeyCode::IsoLevel3Shift => "IsoLevel3Shift"@,
        ModifierKeyCode::IsoLevel5Shift => "IsoLevel5Shift"@,
    }
}

fn media_key_string(m: MediaKeyCode) -> (r: String)
    ensures
        r@ == media_key_name(m),
{
    match m {
        MediaKeyCode::Play => String::from_str("Play"),
        MediaKeyCode::Pause => String::from_str("Pause"),
        MediaKeyCode::PlayPause => String::from_str("PlayPause"),
        MediaKeyCode::Reverse => String::from_str("Reverse"),
        MediaKeyCode::Stop => String::from_str("Stop"),
        MediaKeyCode::FastForward => String::from_str("FastForward"),
        MediaKeyCode::Rewind => String::from_str("Rewind"),
        MediaKeyCode::TrackNext => String::from_str("TrackNext"),
        MediaKeyCode::TrackPrevious => String::from_str("TrackPrevious"),
        MediaKeyCode::Record => String::from_str("Record"),
        MediaKeyCode::LowerVolume => String::from_str("LowerVolume"),
        MediaKeyCode::RaiseVolume => String::from_str("RaiseVolume"),
        MediaKeyCode::MuteVolume => String::from_str("MuteVolume"),
    }
}

fn modifier_key_string(m: ModifierKeyCode) -> (r: String)
    ensures
        r@ == modifier_key_name(m),
{
    match m {
        ModifierKeyCode::LeftShift => String::from_str("LeftShift"),
        ModifierKeyCode::LeftControl => String::from_str("LeftControl"),
        ModifierKeyCode::LeftAlt => String::from_str("LeftAlt"),
        ModifierKeyCode::LeftSuper => String::from_str("LeftSuper"),
        ModifierKeyCode::LeftHyper => String::from_str("LeftHyper"),
        ModifierKeyCode::LeftMeta => String::from_str("LeftMeta"),
        ModifierKeyCode::RightShift => String::from_str("RightShift"),
        ModifierKeyCode::RightControl => String::from_str("RightControl"),
        ModifierKeyCode::RightAlt => String::from_str("RightAlt"),
        ModifierKeyCode::RightSuper => String::from_str("RightSuper"),
        ModifierKeyCode::RightHyper => String::from_str("RightHyper"),
        ModifierKeyCode::RightMeta => String::from_str("RightMeta"),
        ModifierKeyCode::IsoLevel3Shift => String::from_str("IsoLevel3Shift"),
        ModifierKeyCode::IsoLevel5Shift => String::from_str("IsoLevel5Shift"),
    }
}

/// The set of modifier keys held with a key.
#[derive(Clone, Copy, Debug, PartialEq, Eq, Hash, Structural)]
pub struct KeyModifiers {
    pub shift: bool,
    pub control: bool,
    pub alt: bool,
    pub super_key: bool,
    pub hyper: bool,
    pub meta: bool,
}

pub open spec fn mods_none() -> KeyModifiers {
    KeyModifiers { shift: false, control: false, alt: false, super_key: false, hyper: false, meta: false }
}

pub open spec fn mods_shift() -> KeyModifiers {
    KeyModifiers { shift: true, ..mods_none() }
}

pub open spec fn mods_control() -> KeyModifiers {
    KeyModifiers { control: true, ..mods_none() }
}

pub open spec fn mods_alt() -> KeyModifiers {
    KeyModifiers { alt: true, ..mods_none() }
}

pub open spec fn mods_union(a: KeyModifiers, b: KeyModifiers) -> KeyModifiers {
    KeyModifiers {
        shift: a.shift || b.shift,
        control: a.control || b.control,
        alt: a.alt || b.alt,
        super_key: a.super_key || b.super_key,
        hyper: a.hyper || b.hyper,
        meta: a.meta || b.meta,
    }
}

pub open spec fn mods_contains(a: KeyModifiers, b: KeyModifiers) -> bool {
    &&& b.shift ==> a.shift
    &&& b.control ==> a.control
    &&& b.alt ==> a.alt
    &&& b.super_key ==> a.super_key
    &&& b.hyper ==> a.hyper
    &&& b.meta ==> a.meta
}

impl KeyModifiers {
    /// No modifier held.
    pub fn none() -> (r: KeyModifiers)
        ensures
            r == mods_none(),
    {
        KeyModifiers { shift: false, control: false, alt: false, super_key: false, hyper: false, meta: false }
    }

    /// Shift alone.
    pub fn shift() -> (r: KeyModifiers)
        ensures
            r == mods_shift(),
    {
        KeyModifiers { shift: true, control: false, alt: false, super_key: false, hyper: false, meta: false }
    }

    /// Control alone.
    pub fn control() -> (r: KeyModifiers)
        ensures
            r == mods_control(),
    {
        KeyModifiers { shift: false, control: true, alt: false, super_key: false, hyper: false, meta: false }
    }

    /// Alt alone.
    pub fn alt() -> (r: KeyModifiers)
        ensures
            r == mods_alt(),
    {
        KeyModifiers { shift: false, control: false, alt: true, super_key: false, hyper: false, meta: false }
    }

    /// Every modifier held in `self` or in `other`.
    pub fn union(self, other: KeyModifiers) -> (r: KeyModifiers)
        ensures
            r == mods_union(self, other),
    {
        KeyModifiers {
            shift: self.shift || other.shift,
            control: self.control || other.control,
            alt: self.alt || other.alt,
            super_key: self.super_key || other.super_key,
            hyper: self.hyper || other.hyper,
            meta: self.meta || other.meta,
        }
    }

    /// Whether every modifier of `other` is held in `self`.
    pub fn contains(&self, other: KeyModifiers) -> (r: bool)
        ensures
            r == mods_contains(*self, other),
    {
        (!other.shift || self.shift) && (!other.control || self.control) && (!other.alt
            || self.alt) && (!other.super_key || self.super_key) && (!other.hyper || self.hyper)
            && (!other.meta || self.meta)
    }
}

pub open spec fn is_ascii_upper(c: char) -> bool {
    'A' <= c <= 'Z'
}

pub open spec fn is_ascii_lower(c: char) -> bool {
    'a' <= c <= 'z'
}

pub open spec fn ascii_to_lower(c: char) -> char {
    ((c as u32) + 32) as char
}

pub open spec fn ascii_to_upper(c: char) -> char {
    ((c as u32) - 32) as char
}

/// The canonical form of a key: a Shift+letter key is always lowercase
/// letter + Shift, whichever of the three ways the terminal reported it.
pub open spec fn normalize_spec(code: KeyCode, mods: KeyModifiers) -> (KeyCode, KeyModifiers) {
    match code {
        KeyCode::Char(c) => {
            if is_ascii_upper(c) {
                (KeyCode::Char(ascii_to_lower(c)), mods_union(mods, mods_shift()))
            } else {
                (code, mods)
            }
        },
        _ => (code, mods),
    }
}

/// A key already in canonical form.
pub open spec fn is_normalized(k: (KeyCode, KeyModifiers)) -> bool {
    normalize_spec(k.0, k.1) == k
}

/// Canonical form of a key: uppercase ASCII letters become lowercase letter
/// plus Shift; every other key is unchanged.
pub fn normalize_key(code: KeyCode, modifiers: KeyModifiers) -> (r: (KeyCode, KeyModifiers))
    ensures
        r == normalize_spec(code, modifiers),
        is_normalized(r),
{
    if let KeyCode::Char(c) = code {
        if 'A' <= c && c <= 'Z' {
            let b: u8 = c as u8;
            let lower: char = (b + 32) as char;
            assert(lower == ascii_to_lower(c));
            return (KeyCode::Char(lower), modifiers.union(KeyModifiers::shift()));
        }
    }
    (code, modifiers)
}

/// The kinds of error that reading a key string can give.
#[derive(Clone, Copy, Debug, PartialEq, Eq, Structural)]
pub enum KeyErrorKind {
    EmptyKey,
    UnknownModifier,
    TooManyModifiers,
    UnknownKey,
    InvalidFunctionKey,
    FunctionKeyOutOfRange,
    UnsupportedKey,
}

/// A key string that could not be read, with the text it was about.
#[derive(Clone, Debug)]
pub struct KeyError {
    pub kind: KeyErrorKind,
    pub subject: String,
}

impl View for KeyError {
    type V = (KeyErrorKind, Seq<char>);

    open spec fn view(&self) -> (KeyErrorKind, Seq<char>) {
        (self.kind, self.subject@)
    }
}

/// The human-readable text of a key error.
pub open spec fn key_error_message_spec(e: (KeyErrorKind, Seq<char>)) -> Seq<char> {
    match e.0 {
        KeyErrorKind::EmptyKey => "empty key string"@,
        KeyErrorKind::UnknownModifier => "unknown modifier: '"@ + e.1 + "'"@,
        KeyErrorKind::TooManyModifiers => "invalid key string '"@ + e.1
            + "': only one modifier is supported (e.g., 'ctrl+a', not 'ctrl+shift+a')"@,
        KeyErrorKind::UnknownKey => "unknown key: '"@ + e.1 + "'"@,
        KeyErrorKind::InvalidFunctionKey => "invalid function key: '"@ + e.1 + "'"@,
        KeyErrorKind::FunctionKeyOutOfRange => "function key out of range: '"@ + e.1 + "'"@,
        KeyErrorKind::UnsupportedKey => "unsupported key: '"@ + e.1 + "'"@,
    }
}

impl KeyError {
    fn new(kind: KeyErrorKind, subject: &str) -> (r: KeyError)
        ensures
            r@ == (kind, subject@),
    {
        KeyError { kind, subject: String::from_str(subject) }
    }

    /// The human-readable text of this error.
    pub fn message(&self) -> (r: String)
        ensures
            r@ == key_error_message_spec(self@),
    {
        let s = self.subject.as_str();
        match self.kind {
            KeyErrorKind::EmptyKey => String::from_str("empty key string"),
            KeyErrorKind::UnknownModifier => join3("unknown modifier: '", s, "'"),
            KeyErrorKind::TooManyModifiers => join3(
                "invalid key string '",
                s,
                "': only one modifier is supported (e.g., 'ctrl+a', not 'ctrl+shift+a')",
            ),
            KeyErrorKind::UnknownKey => join3("unknown key: '", s, "'"),
            KeyErrorKind::InvalidFunctionKey => join3("invalid function key: '", s, "'"),
            KeyErrorKind::FunctionKeyOutOfRange => join3("function key out of range: '", s, "'"),
            KeyErrorKind::UnsupportedKey => join3("unsupported key: '", s, "'"),
        }
    }
}

/// The kinds of error that reading an action name can give.
#[derive(Clone, Copy, Debug, PartialEq, Eq, Structural)]
pub enum ActionErrorKind {
    EmptyAction,
    UnknownAction,
}

/// An action name that could not be read, with the trimmed text.
#[derive(Clone, Debug)]
pub struct ActionError {
    pub kind: ActionErrorKind,
    pub subject: String,
}

impl View for ActionError {
    type V = (ActionErrorKind, Seq<char>);

    open spec fn view(&self) -> (ActionErrorKind, Seq<char>) {
        (self.kind, self.subject@)
    }
}

pub open spec fn action_error_message_spec(e: (ActionErrorKind, Seq<char>)) -> Seq<char> {
    match e.0 {
        ActionErrorKind::EmptyAction => "empty action string"@,
        ActionErrorKind::UnknownAction => "unknown action: '"@ + e.1 + "'"@,
    }
}

impl ActionError {
    /// The human-readable text of this error.
    pub fn message(&self) -> (r: String)
        ensures
            r@ == action_error_message_spec(self@),
    {
        match self.kind {
            ActionErrorKind::EmptyAction => String::from_str("empty action string"),
            ActionErrorKind::UnknownAction => join3("unknown action: '", self.subject.as_str(), "'"),
        }
    }
}

/// The action that a (trimmed) action name denotes, if any.
pub open spec fn action_named(t: Seq<char>) -> Option<Action> {
    if t == "move_down"@ {
        Some(Action::MoveDown)
    } else if t == "move_up"@ {
        Some(Action::MoveUp)
    } else if t == "focus_terminal"@ {
        Some(Action::FocusTerminal)
    } else if t == "unfocus_terminal"@ {
        Some(Action::UnfocusTerminal)
    } else if t == "quit"@ {
        Some(Action::Quit)
    } else if t == "new_worktree"@ {
        Some(Action::NewWorktree)
    } else if t == "add_repo"@ {
        Some(Action::AddRepo)
    } else if t == "open_editor"@ {
        Some(Action::OpenEditor)
    } else if t == "refresh"@ {
        Some(Action::Refresh)
    } else if t == "delete_worktree"@ {
        Some(Action::DeleteWorktree)
    } else {
        None
    }
}

/// Reading an action name: surrounding whitespace is ignored, the name is
/// case-sensitive.
pub open spec fn parse_action_spec(input: Seq<char>) -> Result<Action, (ActionErrorKind, Seq<char>)> {
    let t = trim_spec(input);
    match action_named(t) {
        Some(a) => Ok(a),
        None => if t.len() == 0 {
            Err((ActionErrorKind::EmptyAction, t))
        } else {
            Err((ActionErrorKind::UnknownAction, t))
        },
    }
}

pub open spec fn action_result_view(r: Result<Action, ActionError>) -> Result<
    Action,
    (ActionErrorKind, Seq<char>),
> {
    match r {
        Ok(a) => Ok(a),
        Err(e) => Err(e@),
    }
}

/// Parses an action name such as `"move_down"`.
pub fn parse_action(input: &str) -> (r: Result<Action, ActionError>)
    ensures
        action_result_view(r) == parse_action_spec(input@),
{
    let t = trim(input);
    if str_equal(t, "move_down") {
        Ok(Action::MoveDown)
    } else if str_equal(t, "move_up") {
        Ok(Action::MoveUp)
    } else if str_equal(t, "focus_terminal") {
        Ok(Action::FocusTerminal)
    } else if str_equal(t, "unfocus_terminal") {
        Ok(Action::UnfocusTerminal)
    } else if str_equal(t, "quit") {
        Ok(Action::Quit)
    } else if str_equal(t, "new_worktree") {
        Ok(Action::NewWorktree)
    } else if str_equal(t, "add_repo") {
        Ok(Action::AddRepo)
    } else if str_equal(t, "open_editor") {
        Ok(Action::OpenEditor)
    } else if str_equal(t, "refresh") {
        Ok(Action::Refresh)
    } else if str_equal(t, "delete_worktree") {
        Ok(Action::DeleteWorktree)
    } else if t.unicode_len() == 0 {
        Err(ActionError { kind: ActionErrorKind::EmptyAction, subject: String::from_str(t) })
    } else {
        Err(ActionError { kind: ActionErrorKind::UnknownAction, subject: String::from_str(t) })
    }
}

pub open spec fn key_error_view<T>(r: Result<T, KeyError>) -> Result<T, (KeyErrorKind, Seq<char>)> {
    match r {
        Ok(v) => Ok(v),
        Err(e) => Err(e@),
    }
}

/// The modifier that a lowercased modifier name denotes.
pub open spec fn modifier_named_spec(lower: Seq<char>) -> Result<
    KeyModifiers,
    (KeyErrorKind, Seq<char>),
> {
    if lower == "ctrl"@ {
        Ok(mods_control())
    } else if lower == "shift"@ {
        Ok(mods_shift())
    } else if lower == "alt"@ {
        Ok(mods_alt())
    } else {
        Err((KeyErrorKind::UnknownModifier, lower))
    }
}

/// Reads a modifier name that is already lowercase: `ctrl`, `shift` or `alt`.
pub fn modifier_from_lowercase(lower: &str) -> (r: Result<KeyModifiers, KeyError>)
    ensures
        key_error_view(r) == modifier_named_spec(lower@),
{
    if str_equal(lower, "ctrl") {
        Ok(KeyModifiers::control())
    } else if str_equal(lower, "shift") {
        Ok(KeyModifiers::shift())
    } else if str_equal(lower, "alt") {
        Ok(KeyModifiers::alt())
    } else {
        Err(KeyError::new(KeyErrorKind::UnknownModifier, lower))
    }
}

/// The number of times `c` occurs in `s`.
pub open spec fn count_char(s: Seq<char>, c: char) -> nat
    decreases s.len(),
{
    if s.len() == 0 {
        0
    } else {
        count_char(s.drop_last(), c) + if s.last() == c {
            1nat
        } else {
            0nat
        }
    }
}

/// The position of the last `c` in `s`, or -1.
pub open spec fn last_index_of(s: Seq<char>, c: char) -> int
    decreases s.len(),
{
    if s.len() == 0 {
        -1
    } else if s.last() == c {
        s.len() - 1
    } else {
        last_index_of(s.drop_last(), c)
    }
}

/// Splitting a key string at `+`: no `+` means no modifier; one `+` means a
/// modifier name (read case-insensitively) before it and the key name after
/// it; more than one `+` is refused.
pub open spec fn split_modifier_spec(input: Seq<char>) -> Result<
    (KeyModifiers, Seq<char>),
    (KeyErrorKind, Seq<char>),
> {
    let n = count_char(input, '+');
    if n == 0 {
        Ok((mods_none(), input))
    } else if n == 1 {
        let p = last_index_of(input, '+');
        match modifier_named_spec(lowercase_text(input.subrange(0, p))) {
            Ok(m) => Ok((m, input.subrange(p + 1, input.len() as int))),
            Err(e) => Err(e),
        }
    } else {
        Err((KeyErrorKind::TooManyModifiers, input))
    }
}

pub open spec fn split_result_view(r: Result<(KeyModifiers, &str), KeyError>) -> Result<
    (KeyModifiers, Seq<char>),
    (KeyErrorKind, Seq<char>),
> {
    match r {
        Ok(v) => Ok((v.0, v.1@)),
        Err(e) => Err(e@),
    }
}

proof fn lemma_last_index_bounds(s: Seq<char>, c: char)
    ensures
        -1 <= last_index_of(s, c) < s.len(),
        last_index_of(s, c) >= 0 ==> s[last_index_of(s, c)] == c,
        count_char(s, c) > 0 <==> last_index_of(s, c) >= 0,
    decreases s.len(),
{
    if s.len() > 0 {
        lemma_last_index_bounds(s.drop_last(), c);
    }
}

/// Splits a key string into its modifier and its key name.
pub fn split_modifier(input: &str) -> (r: Result<(KeyModifiers, &str), KeyError>)
    ensures
        split_result_view(r) == split_modifier_spec(input@),
{
    let n = input.unicode_len();
    let mut count: usize = 0;
    let mut last: usize = 0;
    let mut i: usize = 0;
    assert(input@.subrange(0, 0) =~= Seq::<char>::empty());
    while i < n
        invariant
            n == input@.len(),
            i <= n,
            count <= i,
            count == count_char(input@.subrange(0, i as int), '+'),
            count > 0 ==> last == last_index_of(input@.subrange(0, i as int), '+'),
        decreases n - i,
    {
        let c = input.get_char(i);
        assert(input@.subrange(0, i + 1).drop_last() =~= input@.subrange(0, i as int));
        if c == '+' {
            count = count + 1;
            last = i;
        }
        i = i + 1;
    }
    assert(input@.subrange(0, n as int) =~= input@);
    proof {
        lemma_last_index_bounds(input@, '+');
    }
    if count == 0 {
        Ok((KeyModifiers::none(), input))
    } else if count == 1 {
        let left = input.substring_char(0, last);
        let right = input.substring_char(last + 1, n);
        let lower = to_lowercase(left);
        match modifier_from_lowercase(lower.as_str()) {
            Ok(m) => Ok((m, right)),
            Err(e) => Err(e),
        }
    } else {
        Err(KeyError::new(KeyErrorKind::TooManyModifiers, input))
    }
}

pub open spec fn is_ascii_alphanumeric(c: char) -> bool {
    ||| '0' <= c <= '9'
    ||| 'a' <= c <= 'z'
    ||| 'A' <= c <= 'Z'
}

pub open spec fn is_ascii_punctuation(c: char) -> bool {
    ||| '!' <= c <= '/'
    ||| ':' <= c <= '@'
    ||| '[' <= c <= '`'
    ||| '{' <= c <= '~'
}

/// A one-character key name: its first character, kept in its case, if it
/// is an ASCII letter, digit or punctuation mark.
pub open spec fn single_char_spec(raw: Seq<char>) -> Result<KeyCode, (KeyErrorKind, Seq<char>)> {
    let ch = raw[0];
    if is_ascii_alphanumeric(ch) || is_ascii_punctuation(ch) {
        Ok(KeyCode::Char(ch))
    } else {
        Err((KeyErrorKind::UnsupportedKey, raw))
    }
}

/// A function key name `f<n>` (lowercased), `n` read as `u8::from_str`
/// reads it and between 1 and 12.
pub open spec fn function_key_spec(lower: Seq<char>, raw: Seq<char>) -> Result<
    KeyCode,
    (KeyErrorKind, Seq<char>),
> {
    match parse_u8_spec(lower.drop_first()) {
        None => Err((KeyErrorKind::InvalidFunctionKey, raw)),
        Some(n) => if 1 <= n <= 12 {
            Ok(KeyCode::F(n))
        } else {
            Err((KeyErrorKind::FunctionKeyOutOfRange, raw))
        },
    }
}

/// The length in bytes of the UTF-8 encoding of `s`, as `str::len` gives it.
pub open spec fn byte_len(s: Seq<char>) -> usize {
    vstd::utf8::encode_utf8(s).len() as usize
}

/// The key that a key name denotes, given the name `raw` and its lowercase
/// form `lower`: named keys are matched on `lower`, function keys are `f`
/// and a number, and a name whose lowercase form is one byte long is a
/// single character taken from `raw` in its own case.
pub open spec fn key_name_spec(raw: Seq<char>, lower: Seq<char>) -> Result<
    KeyCode,
    (KeyErrorKind, Seq<char>),
> {
    if lower == "enter"@ {
        Ok(KeyCode::Enter)
    } else if lower == "space"@ {
        Ok(KeyCode::Char(' '))
    } else if lower == "tab"@ {
        Ok(KeyCode::Tab)
    } else if lower == "up"@ {
        Ok(KeyCode::Up)
    } else if lower == "down"@ {
        Ok(KeyCode::Down)
    } else if lower == "left"@ {
        Ok(KeyCode::Left)
    } else if lower == "right"@ {
        Ok(KeyCode::Right)
    } else if lower == "esc"@ {
        Ok(KeyCode::Esc)
    } else if lower == "backspace"@ {
        Ok(KeyCode::Backspace)
    } else if lower == "delete"@ {
        Ok(KeyCode::Delete)
    } else if lower == "home"@ {
        Ok(KeyCode::Home)
    } else if lower == "end"@ {
        Ok(KeyCode::End)
    } else if lower.len() > 0 && lower[0] == 'f' && byte_len(lower) > 1 {
        function_key_spec(lower, raw)
    } else if byte_len(lower) == 1 {
        single_char_spec(raw)
    } else {
        Err((KeyErrorKind::UnknownKey, raw))
    }
}

/// Reads a key name, given the name and its lowercase form.
pub fn parse_key_name_lowered(raw: &str, lower: &str) -> (r: Result<KeyCode, KeyError>)
    requires
        lower@.len() > 0 ==> raw@.len() > 0,
    ensures
        key_error_view(r) == key_name_spec(raw@, lower@),
{
    if str_equal(lower, "enter") {
        Ok(KeyCode::Enter)
    } else if str_equal(lower, "space") {
        Ok(KeyCode::Char(' '))
    } else if str_equal(lower, "tab") {
        Ok(KeyCode::Tab)
    } else if str_equal(lower, "up") {
        Ok(KeyCode::Up)
    } else if str_equal(lower, "down") {
        Ok(KeyCode::Down)
    } else if str_equal(lower, "left") {
        Ok(KeyCode::Left)
    } else if str_equal(lower, "right") {
        Ok(KeyCode::Right)
    } else if str_equal(lower, "esc") {
        Ok(KeyCode::Esc)
    } else if str_equal(lower, "backspace") {
        Ok(KeyCode::Backspace)
    } else if str_equal(lower, "delete") {
        Ok(KeyCode::Delete)
    } else if str_equal(lower, "home") {
        Ok(KeyCode::Home)
    } else if str_equal(lower, "end") {
        Ok(KeyCode::End)
    } else if lower.unicode_len() > 0 && lower.get_char(0) == 'f' && lower.len() > 1 {
        parse_function_key(lower, raw)
    } else if lower.len() == 1 {
        proof {
            if lower@.len() == 0 {
                assert(vstd::utf8::encode_utf8(lower@).len() == 0);
            }
        }
        parse_single_char(raw)
    } else {
        Err(KeyError::new(KeyErrorKind::UnknownKey, raw))
    }
}

/// Reads the function key `f<n>`, 1 <= n <= 12, from its lowercase name.
fn parse_function_key(lower: &str, raw: &str) -> (r: Result<KeyCode, KeyError>)
    requires
        lower@.len() > 0,
    ensures
        key_error_view(r) == function_key_spec(lower@, raw@),
{
    let n = lower.unicode_len();
    let digits = lower.substring_char(1, n);
    assert(digits@ =~= lower@.drop_first());
    match parse_u8(digits) {
        None => Err(KeyError::new(KeyErrorKind::InvalidFunctionKey, raw)),
        Some(num) => if 1 <= num && num <= 12 {
            Ok(KeyCode::F(num))
        } else {
            Err(KeyError::new(KeyErrorKind::FunctionKeyOutOfRange, raw))
        },
    }
}

/// Reads a single-character key, keeping its case.
fn parse_single_char(raw: &str) -> (r: Result<KeyCode, KeyError>)
    requires
        raw@.len() > 0,
    ensures
        key_error_view(r) == single_char_spec(raw@),
{
    let ch = raw.get_char(0);
    let alnum = ('0' <= ch && ch <= '9') || ('a' <= ch && ch <= 'z') || ('A' <= ch && ch <= 'Z');
    let punct = ('!' <= ch && ch <= '/') || (':' <= ch && ch <= '@') || ('[' <= ch && ch <= '`')
        || ('{' <= ch && ch <= '~');
    if alnum || punct {
        Ok(KeyCode::Char(ch))
    } else {
        Err(KeyError::new(KeyErrorKind::UnsupportedKey, raw))
    }
}

/// Reads a key name: case-insensitive for named keys, case-preserving for
/// single characters.
pub fn parse_key_name(raw: &str) -> (r: Result<KeyCode, KeyError>)
    ensures
        key_error_view(r) == key_name_spec(raw@, lowercase_text(raw@)),
{
    let lower = to_lowercase(raw);
    parse_key_name_lowered(raw, lower.as_str())
}

/// Reading a key string: surrounding whitespace is ignored, then an
/// optional modifier and a key name.
pub open spec fn parse_key_spec(input: Seq<char>) -> Result<
    (KeyCode, KeyModifiers),
    (KeyErrorKind, Seq<char>),
> {
    let t = trim_spec(input);
    if t.len() == 0 {
        Err((KeyErrorKind::EmptyKey, Seq::<char>::empty()))
    } else {
        match split_modifier_spec(t) {
            Err(e) => Err(e),
            Ok((m, raw)) => match key_name_spec(raw, lowercase_text(raw)) {
                Err(e) => Err(e),
                Ok(code) => Ok((code, m)),
            },
        }
    }
}

/// Parses a key string like `"ctrl+space"`, `"j"`, `"shift+a"` or `"f12"`
/// into a key and its modifier.
pub fn parse_key(input: &str) -> (r: Result<(KeyCode, KeyModifiers), KeyError>)
    ensures
        key_error_view(r) == parse_key_spec(input@),
{
    let t = trim(input);
    if t.unicode_len() == 0 {
        return Err(KeyError { kind: KeyErrorKind::EmptyKey, subject: String::new() });
    }
    let (modifiers, raw) = match split_modifier(t) {
        Ok(v) => v,
        Err(e) => return Err(e),
    };
    match parse_key_name(raw) {
        Ok(code) => Ok((code, modifiers)),
        Err(e) => Err(e),
    }
}

/// The display name of a key without its modifiers.
pub open spec fn key_name_text(code: KeyCode, mods: KeyModifiers) -> Seq<char> {
    match code {
        KeyCode::Char(c) => if c == ' ' {
            "Space"@
        } else if is_ascii_lower(c) && mods.shift {
            seq![ascii_to_upper(c)]
        } else {
            seq![c]
        },
        KeyCode::Enter => "Enter"@,
        KeyCode::Tab => "Tab"@,
        KeyCode::Up => "Up"@,
        KeyCode::Down => "Down"@,
        KeyCode::Left => "Left"@,
        KeyCode::Right => "Right"@,
        KeyCode::Esc => "Esc"@,
        KeyCode::Backspace => "Backspace"@,
        KeyCode::Delete => "Delete"@,
        KeyCode::Home => "Home"@,
        KeyCode::End => "End"@,
        KeyCode::F(n) => "F"@ + decimal_spec(n as nat),
        KeyCode::PageUp => "PageUp"@,
        KeyCode::PageDown => "PageDown"@,
        KeyCode::BackTab => "BackTab"@,
        KeyCode::Insert => "Insert"@,
        KeyCode::Null => "Null"@,
        KeyCode::CapsLock => "CapsLock"@,
        KeyCode::ScrollLock => "ScrollLock"@,
        KeyCode::NumLock => "NumLock"@,
        KeyCode::PrintScreen => "PrintScreen"@,
        KeyCode::Pause => "Pause"@,
        KeyCode::Menu => "Menu"@,
        KeyCode::KeypadBegin => "KeypadBegin"@,
        KeyCode::Media(m) => "Media("@ + media_key_name(m) + ")"@,
        KeyCode::Modifier(m) => "Modifier("@ + modifier_key_name(m) + ")"@,
    }
}

/// The modifier names of a key, each followed by `+`, in the order
/// Ctrl, Alt, Shift.
pub open spec fn modifier_prefix(mods: KeyModifiers) -> Seq<char> {
    (if mods.control {
        "Ctrl+"@
    } else {
        Seq::<char>::empty()
    }) + (if mods.alt {
        "Alt+"@
    } else {
        Seq::<char>::empty()
    }) + (if mods.shift {
        "Shift+"@
    } else {
        Seq::<char>::empty()
    })
}

/// The human-readable form of a key, such as `Ctrl+Space` or `Shift+A`.
pub open spec fn format_key_spec(code: KeyCode, mods: KeyModifiers) -> Seq<char> {
    modifier_prefix(mods) + key_name_text(code, mods)
}

fn key_name_string(code: KeyCode, mods: KeyModifiers) -> (r: String)
    ensures
        r@ == key_name_text(code, mods),
{
    match code {
        KeyCode::Char(c) => {
            if c == ' ' {
                String::from_str("Space")
            } else if 'a' <= c && c <= 'z' && mods.shift {
                let b: u8 = c as u8;
                let upper: char = (b - 32) as char;
                assert(upper == ascii_to_upper(c));
                let mut s = String::new();
                s.push(upper);
                assert(s@ =~= seq![upper]);
                s
            } else {
                let mut s = String::new();
                s.push(c);
                assert(s@ =~= seq![c]);
                s
            }
        },
        KeyCode::Enter => String::from_str("Enter"),
        KeyCode::Tab => String::from_str("Tab"),
        KeyCode::Up => String::from_str("Up"),
        KeyCode::Down => String::from_str("Down"),
        KeyCode::Left => String::from_str("Left"),
        KeyCode::Right => String::from_str("Right"),
        KeyCode::Esc => String::from_str("Esc"),
        KeyCode::Backspace => String::from_str("Backspace"),
        KeyCode::Delete => String::from_str("Delete"),
        KeyCode::Home => String::from_str("Home"),
        KeyCode::End => String::from_str("End"),
        KeyCode::F(n) => {
            let mut s = String::from_str("F");
            push_decimal(&mut s, n as u64);
            s
        },
        KeyCode::PageUp => String::from_str("PageUp"),
        KeyCode::PageDown => String::from_str("PageDown"),
        KeyCode::BackTab => String::from_str("BackTab"),
        KeyCode::Insert => String::from_str("Insert"),
        KeyCode::Null => String::from_str("Null"),
        KeyCode::CapsLock => String::from_str("CapsLock"),
        KeyCode::ScrollLock => String::from_str("ScrollLock"),
        KeyCode::NumLock => String::from_str("NumLock"),
        KeyCode::PrintScreen => String::from_str("PrintScreen"),
        KeyCode::Pause => String::from_str("Pause"),
        KeyCode::Menu => String::from_str("Menu"),
        KeyCode::KeypadBegin => String::from_str("KeypadBegin"),
        KeyCode::Media(m) => {
            let name = media_key_string(m);
            join3("Media(", name.as_str(), ")")
        },
        KeyCode::Modifier(m) => {
            let name = modifier_key_string(m);
            join3("Modifier(", name.as_str(), ")")
        },
    }
}

/// Renders a key for hints: modifier names joined by `+` before the key
/// name; a lowercase letter held with Shift is shown in uppercase.
pub fn format_key(code: KeyCode, mods: KeyModifiers) -> (r: String)
    ensures
        r@ == format_key_spec(code, mods),
{
    let mut s = String::new();
    if mods.control {
        s.append("Ctrl+");
    }
    if mods.alt {
        s.append("Alt+");
    }
    if mods.shift {
        s.append("Shift+");
    }
    let name = key_name_string(code, mods);
    s.append(name.as_str());
    assert(s@ =~= format_key_spec(code, mods));
    s
}

} // verus!
