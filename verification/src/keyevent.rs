//! Key presses written as text (`<ctrl-a><b>`), read and written back.
use vstd::prelude::*;

use crate::text::{
    ascii_lower, ascii_lower_chars, occurs_at, is_first_occurrence, chars_eq_str, chars_of, contains, contains_chars, decimal_chars,
    decimal_of, find, find_chars, has_prefix, push_all, push_str, slice_range, starts_with, string_of,
};

verus! {

/// A media key.
#[derive(Debug, Clone, Copy, PartialEq, Eq, Structural)]
pub enum MediaKeyCode {
    Play,
    Pause,
    PlayPause,
    Reverse,
    Stop,
    FastForward,
    Rewind,
    TrackNext,
    TrackPrevious,
    Record,
    LowerVolume,
    RaiseVolume,
    MuteVolume,
}

/// A modifier key pressed alone.
#[derive(Debug, Clone, Copy, PartialEq, Eq, Structural)]
pub enum ModifierKeyCode {
    LeftShift,
    LeftControl,
    LeftAlt,
    LeftSuper,
    LeftHyper,
    LeftMeta,
    RightShift,
    RightControl,
    RightAlt,
    RightSuper,
    RightHyper,
    RightMeta,
    IsoLevel3Shift,
    IsoLevel5Shift,
}

/// The key of a key press.
#[derive(Debug, Clone, Copy, PartialEq, Eq, Structural)]
pub enum KeyCode {
    Backspace,
    Enter,
    Left,
    Right,
    Up,
    Down,
    Home,
    End,
    PageUp,
    PageDown,
    Tab,
    BackTab,
    Delete,
    Insert,
    F(u8),
    Char(char),
    Null,
    Esc,
    CapsLock,
    ScrollLock,
    NumLock,
    PrintScreen,
    Pause,
    Menu,
    KeypadBegin,
    Media(MediaKeyCode),
    Modifier(ModifierKeyCode),
}

/// The modifiers held during a key press.
#[derive(Debug, Clone, Copy, PartialEq, Eq, Structural)]
pub struct KeyModifiers {
    pub shift: bool,
    pub control: bool,
    pub alt: bool,
}

impl KeyModifiers {
    /// No modifier.
    pub fn empty() -> (r: Self)
        ensures
            r == no_modifiers(),
    {
        KeyModifiers { shift: false, control: false, alt: false }
    }
}

/// No modifier.
pub open spec fn no_modifiers() -> KeyModifiers {
    KeyModifiers { shift: false, control: false, alt: false }
}

/// A key press: a key and the modifiers held.
#[derive(Debug, Clone, Copy, PartialEq, Eq, Structural)]
pub struct KeyEvent {
    pub code: KeyCode,
    pub modifiers: KeyModifiers,
}

impl KeyEvent {
    /// The press of `code` with `modifiers`.
    pub fn new(code: KeyCode, modifiers: KeyModifiers) -> (r: Self)
        ensures
            r == (KeyEvent { code, modifiers }),
    {
        KeyEvent { code, modifiers }
    }
}

/// The modifier prefixes at the front of `raw` (`ctrl-`, `alt-`, `shift-`,
/// in any order and number), and what follows them.
pub open spec fn split_modifiers(raw: Seq<char>) -> (Seq<char>, KeyModifiers)
    decreases raw.len(),
{
    if raw.len() >= 5 && starts_with(raw, "ctrl-"@) {
        let (rest, m) = split_modifiers(raw.subrange(5, raw.len() as int));
        (rest, KeyModifiers { control: true, ..m })
    } else if raw.len() >= 4 && starts_with(raw, "alt-"@) {
        let (rest, m) = split_modifiers(raw.subrange(4, raw.len() as int));
        (rest, KeyModifiers { alt: true, ..m })
    } else if raw.len() >= 6 && starts_with(raw, "shift-"@) {
        let (rest, m) = split_modifiers(raw.subrange(6, raw.len() as int));
        (rest, KeyModifiers { shift: true, ..m })
    } else {
        (raw, no_modifiers())
    }
}

/// The key that a name (in lower case) stands for, if it names one.
pub open spec fn named_key(raw: Seq<char>) -> Option<KeyCode> {
    if raw == "esc"@ {
        Some(KeyCode::Esc)
    } else if raw == "enter"@ {
        Some(KeyCode::Enter)
    } else if raw == "left"@ {
        Some(KeyCode::Left)
    } else if raw == "right"@ {
        Some(KeyCode::Right)
    } else if raw == "up"@ {
        Some(KeyCode::Up)
    } else if raw == "down"@ {
        Some(KeyCode::Down)
    } else if raw == "home"@ {
        Some(KeyCode::Home)
    } else if raw == "end"@ {
        Some(KeyCode::End)
    } else if raw == "pageup"@ {
        Some(KeyCode::PageUp)
    } else if raw == "pagedown"@ {
        Some(KeyCode::PageDown)
    } else if raw == "backtab"@ {
        Some(KeyCode::BackTab)
    } else if raw == "backspace"@ {
        Some(KeyCode::Backspace)
    } else if raw == "delete"@ {
        Some(KeyCode::Delete)
    } else if raw == "insert"@ {
        Some(KeyCode::Insert)
    } else if raw == "space"@ {
        Some(KeyCode::Char(' '))
    } else if raw == "tab"@ {
        Some(KeyCode::Tab)
    } else {
        function_key(raw)
    }
}

/// The function key `f1` to `f12` that `raw` names.
pub open spec fn function_key(raw: Seq<char>) -> Option<KeyCode> {
    if raw.len() == 2 && raw[0] == 'f' && '1' <= raw[1] <= '9' {
        Some(KeyCode::F(((raw[1] as u32) - 48) as u8))
    } else if raw.len() == 3 && raw[0] == 'f' && raw[1] == '1' && '0' <= raw[2] <= '2' {
        Some(KeyCode::F(((raw[2] as u32) - 38) as u8))
    } else {
        None
    }
}

/// The upper-case form of an ASCII letter; any other character as it is.
pub open spec fn ascii_upper_char(c: char) -> char {
    if 'a' <= c <= 'z' {
        ((c as u32) - 32) as char
    } else {
        c
    }
}

/// The message of a key that cannot be read.
pub open spec fn unreadable_key(raw: Seq<char>) -> Seq<char> {
    "Unable to parse "@ + raw
}

/// The key press that a key name gives with `modifiers` held: a named key
/// (`backtab` adds shift), or a single ASCII character (upper case with
/// shift).
pub open spec fn key_of(raw: Seq<char>, modifiers: KeyModifiers) -> Result<KeyEvent, Seq<char>> {
    match named_key(raw) {
        Some(KeyCode::BackTab) => Ok(
            KeyEvent { code: KeyCode::BackTab, modifiers: KeyModifiers { shift: true, ..modifiers } },
        ),
        Some(c) => Ok(KeyEvent { code: c, modifiers }),
        None => if raw.len() == 1 && (raw[0] as u32) < 128 {
            Ok(
                KeyEvent {
                    code: KeyCode::Char(
                        if modifiers.shift {
                            ascii_upper_char(raw[0])
                        } else {
                            raw[0]
                        },
                    ),
                    modifiers,
                },
            )
        } else {
            Err(unreadable_key(raw))
        },
    }
}

/// The key press that a text such as `ctrl-a` stands for, read in any case.
pub open spec fn key_event_of(raw: Seq<char>) -> Result<KeyEvent, Seq<char>> {
    let (rest, m) = split_modifiers(ascii_lower(raw));
    key_of(rest, m)
}

fn modifiers_of(raw: &[char]) -> (r: (Vec<char>, KeyModifiers))
    ensures
        r.0@ == split_modifiers(raw@).0,
        r.1 == split_modifiers(raw@).1,
    decreases raw.len(),
{
    proof {
        reveal_strlit("ctrl-");
        reveal_strlit("alt-");
        reveal_strlit("shift-");
    }
    let n = raw.len();
    if has_prefix(raw, chars_of("ctrl-").as_slice()) {
        let rest = slice_range(raw, 5, n);
        let (r, m) = modifiers_of(rest.as_slice());
        (r, KeyModifiers { control: true, ..m })
    } else if has_prefix(raw, chars_of("alt-").as_slice()) {
        let rest = slice_range(raw, 4, n);
        let (r, m) = modifiers_of(rest.as_slice());
        (r, KeyModifiers { alt: true, ..m })
    } else if has_prefix(raw, chars_of("shift-").as_slice()) {
        let rest = slice_range(raw, 6, n);
        let (r, m) = modifiers_of(rest.as_slice());
        (r, KeyModifiers { shift: true, ..m })
    } else {
        (slice_range(raw, 0, n), KeyModifiers::empty())
    }
}

fn function_key_of(raw: &[char]) -> (r: Option<KeyCode>)
    ensures
        r == function_key(raw@),
{
    if raw.len() == 2 && raw[0] == 'f' && '1' <= raw[1] && raw[1] <= '9' {
        Some(KeyCode::F(((raw[1] as u32) - 48) as u8))
    } else if raw.len() == 3 && raw[0] == 'f' && raw[1] == '1' && '0' <= raw[2] && raw[2] <= '2' {
        Some(KeyCode::F(((raw[2] as u32) - 38) as u8))
    } else {
        None
    }
}

fn named_key_of(raw: &[char]) -> (r: Option<KeyCode>)
    ensures
        r == named_key(raw@),
{
    if chars_eq_str(raw, "esc") {
        Some(KeyCode::Esc)
    } else if chars_eq_str(raw, "enter") {
        Some(KeyCode::Enter)
    } else if chars_eq_str(raw, "left") {
        Some(KeyCode::Left)
    } else if chars_eq_str(raw, "right") {
        Some(KeyCode::Right)
    } else if chars_eq_str(raw, "up") {
        Some(KeyCode::Up)
    } else if chars_eq_str(raw, "down") {
        Some(KeyCode::Down)
    } else if chars_eq_str(raw, "home") {
        Some(KeyCode::Home)
    } else if chars_eq_str(raw, "end") {
        Some(KeyCode::End)
    } else if chars_eq_str(raw, "pageup") {
        Some(KeyCode::PageUp)
    } else if chars_eq_str(raw, "pagedown") {
        Some(KeyCode::PageDown)
    } else if chars_eq_str(raw, "backtab") {
        Some(KeyCode::BackTab)
    } else if chars_eq_str(raw, "backspace") {
        Some(KeyCode::Backspace)
    } else if chars_eq_str(raw, "delete") {
        Some(KeyCode::Delete)
    } else if chars_eq_str(raw, "insert") {
        Some(KeyCode::Insert)
    } else if chars_eq_str(raw, "space") {
        Some(KeyCode::Char(' '))
    } else if chars_eq_str(raw, "tab") {
        Some(KeyCode::Tab)
    } else {
        function_key_of(raw)
    }
}

fn upper_ascii(c: char) -> (r: char)
    ensures
        r == ascii_upper_char(c),
{
    if 'a' <= c && c <= 'z' {
        ((c as u32 - 32) as u8) as char
    } else {
        c
    }
}

/// The key press that a key name gives with `modifiers` held.
pub fn parse_key_code_with_modifiers(raw: &str, modifiers: KeyModifiers) -> (r: Result<KeyEvent, String>)
    ensures
        match key_of(raw@, modifiers) {
            Ok(e) => r == Ok::<KeyEvent, String>(e),
            Err(m) => r matches Err(x) && x@ == m,
        },
{
    let rc = chars_of(raw);
    key_of_chars(rc.as_slice(), modifiers)
}

fn key_of_chars(raw: &[char], modifiers: KeyModifiers) -> (r: Result<KeyEvent, String>)
    ensures
        match key_of(raw@, modifiers) {
            Ok(e) => r == Ok::<KeyEvent, String>(e),
            Err(m) => r matches Err(x) && x@ == m,
        },
{
    match named_key_of(raw) {
        Some(KeyCode::BackTab) => Ok(
            KeyEvent { code: KeyCode::BackTab, modifiers: KeyModifiers { shift: true, ..modifiers } },
        ),
        Some(c) => Ok(KeyEvent { code: c, modifiers }),
        None => {
            if raw.len() == 1 && (raw[0] as u32) < 128 {
                let c = if modifiers.shift {
                    upper_ascii(raw[0])
                } else {
                    raw[0]
                };
                Ok(KeyEvent { code: KeyCode::Char(c), modifiers })
            } else {
                let mut m = chars_of("Unable to parse ");
                push_all(&mut m, raw);
                Err(string_of(m.as_slice()))
            }
        },
    }
}

/// The key press that a text such as `ctrl-a` stands for, read in any case.
pub fn parse_key_event(raw: &str) -> (r: Result<KeyEvent, String>)
    ensures
        match key_event_of(raw@) {
            Ok(e) => r == Ok::<KeyEvent, String>(e),
            Err(m) => r matches Err(x) && x@ == m,
        },
{
    let lower = ascii_lower_chars(chars_of(raw).as_slice());
    let (rest, m) = modifiers_of(lower.as_slice());
    key_of_chars(rest.as_slice(), m)
}

/// How a media key is written.
pub open spec fn media_text(m: MediaKeyCode) -> Seq<char> {
    match m {
        MediaKeyCode::Play => "play"@,
        MediaKeyCode::Pause => "pause"@,
        MediaKeyCode::PlayPause => "playpause"@,
        MediaKeyCode::Reverse => "reverse"@,
        MediaKeyCode::Stop => "stop"@,
        MediaKeyCode::FastForward => "fastforward"@,
        MediaKeyCode::Rewind => "rewind"@,
        MediaKeyCode::TrackNext => "tracknext"@,
        MediaKeyCode::TrackPrevious => "trackprevious"@,
        MediaKeyCode::Record => "record"@,
        MediaKeyCode::LowerVolume => "lowervolume"@,
        MediaKeyCode::RaiseVolume => "raisevolume"@,
        MediaKeyCode::MuteVolume => "mutevolume"@,
    }
}

/// How a modifier key is written.
pub open spec fn modifier_key_text(m: ModifierKeyCode) -> Seq<char> {
    match m {
        ModifierKeyCode::LeftShift => "leftshift"@,
        ModifierKeyCode::LeftControl => "leftcontrol"@,
        ModifierKeyCode::LeftAlt => "leftalt"@,
        ModifierKeyCode::LeftSuper => "leftsuper"@,
        ModifierKeyCode::LeftHyper => "lefthyper"@,
        ModifierKeyCode::LeftMeta => "leftmeta"@,
        ModifierKeyCode::RightShift => "rightshift"@,
        ModifierKeyCode::RightControl => "rightcontrol"@,
        ModifierKeyCode::RightAlt => "rightalt"@,
        ModifierKeyCode::RightSuper => "rightsuper"@,
        ModifierKeyCode::RightHyper => "righthyper"@,
        ModifierKeyCode::RightMeta => "rightmeta"@,
        ModifierKeyCode::IsoLevel3Shift => "isolevel3shift"@,
        ModifierKeyCode::IsoLevel5Shift => "isolevel5shift"@,
    }
}

/// How a key is written: its name, or the character itself.
pub open spec fn code_text(c: KeyCode) -> Seq<char> {
    match c {
        KeyCode::Backspace => "backspace"@,
        KeyCode::Enter => "enter"@,
        KeyCode::Left => "left"@,
        KeyCode::Right => "right"@,
        KeyCode::Up => "up"@,
        KeyCode::Down => "down"@,
        KeyCode::Home => "home"@,
        KeyCode::End => "end"@,
        KeyCode::PageUp => "pageup"@,
        KeyCode::PageDown => "pagedown"@,
        KeyCode::Tab => "tab"@,
        KeyCode::BackTab => "backtab"@,
        KeyCode::Delete => "delete"@,
        KeyCode::Insert => "insert"@,
        KeyCode::Null => "null"@,
        KeyCode::Esc => "esc"@,
        KeyCode::CapsLock => "capslock"@,
        KeyCode::ScrollLock => "scrolllock"@,
        KeyCode::NumLock => "numlock"@,
        KeyCode::PrintScreen => "printscreen"@,
        KeyCode::Pause => "pause"@,
        KeyCode::Menu => "menu"@,
        KeyCode::KeypadBegin => "keypadbegin"@,
        KeyCode::F(n) => seq!['f'] + decimal_of(n as nat),
        KeyCode::Char(ch) => if ch == ' ' {
            "space"@
        } else {
            seq![ch]
        },
        KeyCode::Media(m) => media_text(m),
        KeyCode::Modifier(m) => modifier_key_text(m),
    }
}

/// How held modifiers are written: `ctrl-`, `alt-`, `shift-`, in that order.
pub open spec fn modifiers_text(m: KeyModifiers) -> Seq<char> {
    (if m.control { "ctrl-"@ } else { Seq::empty() }) + (if m.alt { "alt-"@ } else { Seq::empty() }) + (if m.shift {
        "shift-"@
    } else {
        Seq::empty()
    })
}

/// How a key press is written: `<`, the modifiers, the key, `>`.
pub open spec fn key_text(e: KeyEvent) -> Seq<char> {
    seq!['<'] + modifiers_text(e.modifiers) + code_text(e.code) + seq!['>']
}

fn code_chars(c: KeyCode) -> (r: Vec<char>)
    ensures
        r@ == code_text(c),
{
    match c {
        KeyCode::Backspace => chars_of("backspace"),
        KeyCode::Enter => chars_of("enter"),
        KeyCode::Left => chars_of("left"),
        KeyCode::Right => chars_of("right"),
        KeyCode::Up => chars_of("up"),
        KeyCode::Down => chars_of("down"),
        KeyCode::Home => chars_of("home"),
        KeyCode::End => chars_of("end"),
        KeyCode::PageUp => chars_of("pageup"),
        KeyCode::PageDown => chars_of("pagedown"),
        KeyCode::Tab => chars_of("tab"),
        KeyCode::BackTab => chars_of("backtab"),
        KeyCode::Delete => chars_of("delete"),
        KeyCode::Insert => chars_of("insert"),
        KeyCode::Null => chars_of("null"),
        KeyCode::Esc => chars_of("esc"),
        KeyCode::CapsLock => chars_of("capslock"),
        KeyCode::ScrollLock => chars_of("scrolllock"),
        KeyCode::NumLock => chars_of("numlock"),
        KeyCode::PrintScreen => chars_of("printscreen"),
        KeyCode::Pause => chars_of("pause"),
        KeyCode::Menu => chars_of("menu"),
        KeyCode::KeypadBegin => chars_of("keypadbegin"),
        KeyCode::F(n) => {
            let mut r: Vec<char> = Vec::new();
            r.push('f');
            push_all(&mut r, decimal_chars(n as u64).as_slice());
            r
        },
        KeyCode::Char(ch) => {
            if ch == ' ' {
                chars_of("space")
            } else {
                let mut r: Vec<char> = Vec::new();
                r.push(ch);
                r
            }
        },
        KeyCode::Media(m) => match m {
            MediaKeyCode::Play => chars_of("play"),
            MediaKeyCode::Pause => chars_of("pause"),
            MediaKeyCode::PlayPause => chars_of("playpause"),
            MediaKeyCode::Reverse => chars_of("reverse"),
            MediaKeyCode::Stop => chars_of("stop"),
            MediaKeyCode::FastForward => chars_of("fastforward"),
            MediaKeyCode::Rewind => chars_of("rewind"),
            MediaKeyCode::TrackNext => chars_of("tracknext"),
            MediaKeyCode::TrackPrevious => chars_of("trackprevious"),
            MediaKeyCode::Record => chars_of("record"),
            MediaKeyCode::LowerVolume => chars_of("lowervolume"),
            MediaKeyCode::RaiseVolume => chars_of("raisevolume"),
            MediaKeyCode::MuteVolume => chars_of("mutevolume"),
        },
        KeyCode::Modifier(m) => match m {
            ModifierKeyCode::LeftShift => chars_of("leftshift"),
            ModifierKeyCode::LeftControl => chars_of("leftcontrol"),
            ModifierKeyCode::LeftAlt => chars_of("leftalt"),
            ModifierKeyCode::LeftSuper => chars_of("leftsuper"),
            ModifierKeyCode::LeftHyper => chars_of("lefthyper"),
            ModifierKeyCode::LeftMeta => chars_of("leftmeta"),
            ModifierKeyCode::RightShift => chars_of("rightshift"),
            ModifierKeyCode::RightControl => chars_of("rightcontrol"),
            ModifierKeyCode::RightAlt => chars_of("rightalt"),
            ModifierKeyCode::RightSuper => chars_of("rightsuper"),
            ModifierKeyCode::RightHyper => chars_of("righthyper"),
            ModifierKeyCode::RightMeta => chars_of("rightmeta"),
            ModifierKeyCode::IsoLevel3Shift => chars_of("isolevel3shift"),
            ModifierKeyCode::IsoLevel5Shift => chars_of("isolevel5shift"),
        },
    }
}

/// How a key press is written: `<`, the modifiers, the key, `>`.
pub fn key_event_to_string(event: KeyEvent) -> (r: String)
    ensures
        r@ == key_text(event),
{
    let mut r: Vec<char> = Vec::new();
    r.push('<');
    if event.modifiers.control {
        push_str(&mut r, "ctrl-");
    }
    if event.modifiers.alt {
        push_str(&mut r, "alt-");
    }
    if event.modifiers.shift {
        push_str(&mut r, "shift-");
    }
    let ghost before = r@;
    assert(before =~= seq!['<'] + modifiers_text(event.modifiers));
    push_all(&mut r, code_chars(event.code).as_slice());
    r.push('>');
    string_of(r.as_slice())
}

/// How many times `c` occurs in `s`.
pub open spec fn count_char(s: Seq<char>, c: char) -> nat
    decreases s.len(),
{
    if s.len() == 0 {
        0
    } else {
        count_char(s.drop_last(), c) + if s.last() == c {
            1nat
        } else {
            0nat
        }
    }
}

fn count_char_of(s: &[char], c: char) -> (r: usize)
    ensures
        r == count_char(s@, c),
{
    let mut n: usize = 0;
    let mut i: usize = 0;
    while i < s.len()
        invariant
            i <= s@.len(),
            n == count_char(s@.take(i as int), c),
            n <= i,
        decreases s.len() - i,
    {
        assert(s@.take(i + 1).drop_last() =~= s@.take(i as int));
        if s[i] == c {
            n += 1;
        }
        i += 1;
    }
    assert(s@.take(s@.len() as int) =~= s@);
    n
}

/// `s` split at every occurrence of the nonempty `p` (`str::split`).
pub open spec fn split_str(s: Seq<char>, p: Seq<char>) -> Seq<Seq<char>>
    decreases s.len(),
{
    match find(s, p) {
        Some(i) => if 0 <= i && p.len() > 0 && i + p.len() <= s.len() {
            seq![s.subrange(0, i)] + split_str(s.subrange(i + p.len(), s.len() as int), p)
        } else {
            seq![s]
        },
        None => seq![s],
    }
}

fn split_str_chars(s: &[char], p: &[char]) -> (r: Vec<Vec<char>>)
    requires
        p@.len() > 0,
    ensures
        r@.len() == split_str(s@, p@).len(),
        forall|k: int| 0 <= k < r@.len() ==> #[trigger] r@[k]@ == split_str(s@, p@)[k],
{
    let mut r: Vec<Vec<char>> = Vec::new();
    let mut rest = slice_range(s, 0, s.len());
    assert(rest@ =~= s@);
    assert(crate::text::char_vecs(r@) =~= Seq::<Seq<char>>::empty());
    assert(crate::text::char_vecs(r@) + split_str(rest@, p@) =~= split_str(s@, p@));
    loop
        invariant
            p@.len() > 0,
            crate::text::char_vecs(r@) + split_str(rest@, p@) == split_str(s@, p@),
        decreases rest@.len(),
    {
        let ghost before = crate::text::char_vecs(r@);
        match find_chars(rest.as_slice(), p) {
            Some(i) => {
                let n = rest.len();
                let head = slice_range(rest.as_slice(), 0, i);
                let tail = slice_range(rest.as_slice(), i + p.len(), n);
                proof {
                    assert(split_str(rest@, p@) == seq![head@] + split_str(tail@, p@));
                }
                r.push(head);
                assert(crate::text::char_vecs(r@) =~= before.push(head@));
                assert(before + (seq![head@] + split_str(tail@, p@)) =~= before.push(head@) + split_str(tail@, p@));
                rest = tail;
            },
            None => {
                let ghost last = rest@;
                r.push(rest);
                assert(crate::text::char_vecs(r@) =~= before.push(last));
                assert(before + seq![last] =~= before.push(last));
                return r;
            },
        }
    }
}

/// `s` without a first `c`, if it begins with one.
pub open spec fn drop_first_if(s: Seq<char>, c: char) -> Seq<char> {
    if s.len() > 0 && s[0] == c {
        s.drop_first()
    } else {
        s
    }
}

/// One key of a sequence without its brackets: a leading `<`, or else a
/// trailing `>`.
pub open spec fn unbracketed(q: Seq<char>) -> Seq<char> {
    if q.len() > 0 && q[0] == '<' {
        q.drop_first()
    } else if q.len() > 0 && q.last() == '>' {
        q.drop_last()
    } else {
        q
    }
}

/// The keys of a key sequence as written: split at `><`, each without its
/// brackets; a single key loses a leading `<` and then a leading `>`.
pub open spec fn sequence_parts(raw: Seq<char>) -> Seq<Seq<char>> {
    let r = if !contains(raw, "><"@) {
        drop_first_if(drop_first_if(raw, '<'), '>')
    } else {
        raw
    };
    split_str(r, "><"@).map_values(|q: Seq<char>| unbracketed(q))
}

/// The key presses of `parts`, or the message of the first that cannot be read.
pub open spec fn key_events_of(parts: Seq<Seq<char>>) -> Result<Seq<KeyEvent>, Seq<char>>
    decreases parts.len(),
{
    if parts.len() == 0 {
        Ok(Seq::empty())
    } else {
        match key_event_of(parts[0]) {
            Err(m) => Err(m),
            Ok(e) => match key_events_of(parts.drop_first()) {
                Ok(rest) => Ok(seq![e] + rest),
                Err(m) => Err(m),
            },
        }
    }
}

/// The key presses that a key sequence such as `<ctrl-a><b>` stands for: an
/// error when its brackets do not pair up or a key cannot be read.
pub open spec fn key_sequence_of(raw: Seq<char>) -> Result<Seq<KeyEvent>, Seq<char>> {
    if count_char(raw, '>') != count_char(raw, '<') {
        Err("Unable to parse `"@ + raw + "`"@)
    } else {
        key_events_of(sequence_parts(raw))
    }
}

fn unbracketed_chars(q: &[char]) -> (r: Vec<char>)
    ensures
        r@ == unbracketed(q@),
{
    let n = q.len();
    if n > 0 && q[0] == '<' {
        slice_range(q, 1, n)
    } else if n > 0 && q[n - 1] == '>' {
        slice_range(q, 0, n - 1)
    } else {
        slice_range(q, 0, n)
    }
}

fn drop_first_if_chars(s: &[char], c: char) -> (r: Vec<char>)
    ensures
        r@ == drop_first_if(s@, c),
{
    if s.len() > 0 && s[0] == c {
        slice_range(s, 1, s.len())
    } else {
        slice_range(s, 0, s.len())
    }
}

/// The key presses that a key sequence such as `<ctrl-a><b>` stands for.
pub fn parse_key_sequence(raw: &str) -> (r: Result<Vec<KeyEvent>, String>)
    ensures
        match key_sequence_of(raw@) {
            Ok(es) => r matches Ok(v) && v@ == es,
            Err(m) => r matches Err(x) && x@ == m,
        },
{
    let rc = chars_of(raw);
    if count_char_of(rc.as_slice(), '>') != count_char_of(rc.as_slice(), '<') {
        let mut m = chars_of("Unable to parse `");
        push_all(&mut m, rc.as_slice());
        push_str(&mut m, "`");
        return Err(string_of(m.as_slice()));
    }
    let sep = chars_of("><");
    let body = if !contains_chars(rc.as_slice(), sep.as_slice()) {
        let a = drop_first_if_chars(rc.as_slice(), '<');
        drop_first_if_chars(a.as_slice(), '>')
    } else {
        rc
    };
    proof {
        reveal_strlit("><");
    }
    let pieces = split_str_chars(body.as_slice(), sep.as_slice());
    let ghost parts = sequence_parts(raw@);
    assert(parts.len() == pieces@.len());
    let mut out: Vec<KeyEvent> = Vec::new();
    let mut i: usize = 0;
    assert(parts.skip(0) =~= parts);
    while i < pieces.len()
        invariant
            i <= pieces@.len(),
            parts.len() == pieces@.len(),
            forall|k: int| 0 <= k < parts.len() ==> #[trigger] parts[k] == unbracketed(pieces@[k]@),
            parts == sequence_parts(raw@),
            count_char(raw@, '>') == count_char(raw@, '<'),
            key_events_of(parts) == match key_events_of(parts.skip(i as int)) {
                Ok(rest) => Ok(out@ + rest),
                Err(m) => Err(m),
            },
        decreases pieces.len() - i,
    {
        let q = unbracketed_chars(pieces[i].as_slice());
        let qs = string_of(q.as_slice());
        assert(parts.skip(i as int)[0] == parts[i as int]);
        assert(parts.skip(i as int).drop_first() =~= parts.skip(i + 1));
        match parse_key_event(qs.as_str()) {
            Ok(e) => {
                let ghost before = out@;
                out.push(e);
                proof {
                    match key_events_of(parts.skip(i + 1)) {
                        Ok(rest) => {
                            assert(before + (seq![e] + rest) =~= out@ + rest);
                        },
                        Err(m) => {},
                    }
                }
            },
            Err(m) => {
                assert(q@ == parts[i as int]);
                assert(key_events_of(parts.skip(i as int)) == Err::<Seq<KeyEvent>, Seq<char>>(m@));
                assert(key_sequence_of(raw@) == key_events_of(parts));
                return Err(m);
            },
        }
        i += 1;
    }
    assert(parts.skip(pieces@.len() as int) =~= Seq::<Seq<char>>::empty());
    assert(out@ + Seq::<KeyEvent>::empty() =~= out@);
    Ok(out)
}


/// A key press whose written form names it exactly: one of the named keys
/// (`backtab` only with shift held, which reading it adds), `f1` to `f12`,
/// or an ASCII character other than `<` and `>` that is its own lower case
/// (and, with shift held, its own upper case).
pub open spec fn written_exactly(e: KeyEvent) -> bool {
    match e.code {
        KeyCode::Char(c) => (c as u32) < 128 && c != '<' && c != '>' && crate::text::ascii_lower_char(c) == c && (
        e.modifiers.shift ==> ascii_upper_char(c) == c),
        KeyCode::F(n) => 1 <= n <= 12,
        KeyCode::BackTab => e.modifiers.shift,
        KeyCode::Backspace | KeyCode::Enter | KeyCode::Left | KeyCode::Right | KeyCode::Up | KeyCode::Down
        | KeyCode::Home | KeyCode::End | KeyCode::PageUp | KeyCode::PageDown | KeyCode::Tab | KeyCode::Delete
        | KeyCode::Insert | KeyCode::Esc => true,
        _ => false,
    }
}

/// Text without brackets, already in lower case.
pub open spec fn plain_text(s: Seq<char>) -> bool {
    forall|i: int| 0 <= i < s.len() ==> #[trigger] s[i] != '<' && s[i] != '>' && crate::text::ascii_lower_char(s[i]) == s[i]
}

/// Text that does not begin with a modifier prefix.
pub open spec fn no_modifier_prefix(s: Seq<char>) -> bool {
    !starts_with(s, "ctrl-"@) && !starts_with(s, "alt-"@) && !starts_with(s, "shift-"@)
}

#[verifier::rlimit(40)]
proof fn lemma_code_text(e: KeyEvent)
    requires
        written_exactly(e),
    ensures
        code_text(e.code).len() > 0,
        plain_text(code_text(e.code)),
        no_modifier_prefix(code_text(e.code)),
        key_of(code_text(e.code), e.modifiers) == Ok::<KeyEvent, Seq<char>>(e),
{
    if e.code is F {
        lemma_function_key_text(e.code->F_0);
    } else if e.code is Char {
        lemma_char_text(e);
    } else {
        reveal_strlit("esc");
        reveal_strlit("enter");
        reveal_strlit("left");
        reveal_strlit("right");
        reveal_strlit("up");
        reveal_strlit("down");
        reveal_strlit("home");
        reveal_strlit("end");
        reveal_strlit("pageup");
        reveal_strlit("pagedown");
        reveal_strlit("backtab");
        reveal_strlit("backspace");
        reveal_strlit("delete");
        reveal_strlit("insert");
        reveal_strlit("space");
        reveal_strlit("tab");
        reveal_strlit("ctrl-");
        reveal_strlit("alt-");
        reveal_strlit("shift-");
        lemma_no_modifier_prefix(code_text(e.code));
        if e.code is End {
            assert("end"@[1] != "esc"@[1]);
        }
    }
}

proof fn lemma_no_modifier_prefix(s: Seq<char>)
    requires
        s.len() > 0,
        s.len() < 4 || (s[0] != 'c' && s[0] != 'a' && (s[0] != 's' || s[1] != 'h')),
    ensures
        no_modifier_prefix(s),
{
    reveal_strlit("ctrl-");
    reveal_strlit("alt-");
    reveal_strlit("shift-");
    if starts_with(s, "ctrl-"@) {
        assert(s.subrange(0, 5)[0] == s[0]);
    }
    if starts_with(s, "alt-"@) {
        assert(s.subrange(0, 4)[0] == s[0]);
    }
    if starts_with(s, "shift-"@) {
        assert(s.subrange(0, 6)[0] == s[0]);
        assert(s.subrange(0, 6)[1] == s[1]);
    }
}

proof fn lemma_char_text(e: KeyEvent)
    requires
        written_exactly(e),
        e.code is Char,
    ensures
        code_text(e.code).len() > 0,
        plain_text(code_text(e.code)),
        no_modifier_prefix(code_text(e.code)),
        key_of(code_text(e.code), e.modifiers) == Ok::<KeyEvent, Seq<char>>(e),
{
        reveal_strlit("esc");
        reveal_strlit("enter");
        reveal_strlit("left");
        reveal_strlit("right");
        reveal_strlit("up");
        reveal_strlit("down");
        reveal_strlit("home");
        reveal_strlit("end");
        reveal_strlit("pageup");
        reveal_strlit("pagedown");
        reveal_strlit("backtab");
        reveal_strlit("backspace");
        reveal_strlit("delete");
        reveal_strlit("insert");
        reveal_strlit("space");
        reveal_strlit("tab");
        reveal_strlit("ctrl-");
        reveal_strlit("alt-");
        reveal_strlit("shift-");
    let c = e.code->Char_0;
    lemma_no_modifier_prefix(code_text(e.code));
    if c == ' ' {
        assert(code_text(e.code) == "space"@);
    } else {
        let n = code_text(e.code);
        assert(n == seq![c]);
        assert(n.len() == 1);
        assert(named_key(n) is None);
    }
}

proof fn lemma_function_key_text(k: u8)
    requires
        1 <= k <= 12,
    ensures
        no_modifier_prefix(seq!['f'] + decimal_of(k as nat)),
        plain_text(seq!['f'] + decimal_of(k as nat)),
        named_key(seq!['f'] + decimal_of(k as nat)) == Some(KeyCode::F(k)),
{
    reveal_strlit("esc");
    reveal_strlit("enter");
    reveal_strlit("left");
    reveal_strlit("right");
    reveal_strlit("up");
    reveal_strlit("down");
    reveal_strlit("home");
    reveal_strlit("end");
    reveal_strlit("pageup");
    reveal_strlit("pagedown");
    reveal_strlit("backtab");
    reveal_strlit("backspace");
    reveal_strlit("delete");
    reveal_strlit("insert");
    reveal_strlit("space");
    reveal_strlit("tab");
    reveal_strlit("f1");
    reveal_strlit("f2");
    reveal_strlit("f3");
    reveal_strlit("f4");
    reveal_strlit("f5");
    reveal_strlit("f6");
    reveal_strlit("f7");
    reveal_strlit("f8");
    reveal_strlit("f9");
    reveal_strlit("f10");
    reveal_strlit("f11");
    reveal_strlit("f12");
    reveal_strlit("ctrl-");
    reveal_strlit("alt-");
    reveal_strlit("shift-");
    reveal_with_fuel(decimal_of, 2);
    let n = seq!['f'] + decimal_of(k as nat);
    if k < 10 {
        assert(decimal_of(k as nat) == seq![crate::text::digit_char(k as nat)]);
        assert(n[1] == crate::text::digit_char(k as nat));
    } else {
        assert(decimal_of(k as nat) == seq!['1', crate::text::digit_char((k - 10) as nat)]);
    }
    assert(n[0] == 'f');
}

proof fn lemma_modifiers_text(m: KeyModifiers, n: Seq<char>)
    requires
        n.len() > 0,
        plain_text(n),
        no_modifier_prefix(n),
    ensures
        plain_text(modifiers_text(m) + n),
        split_modifiers(modifiers_text(m) + n) == (n, m),
{
    reveal_strlit("ctrl-");
    reveal_strlit("alt-");
    reveal_strlit("shift-");
    let t = modifiers_text(m) + n;
    let c: Seq<char> = if m.control { "ctrl-"@ } else { Seq::empty() };
    let a: Seq<char> = if m.alt { "alt-"@ } else { Seq::empty() };
    let sh: Seq<char> = if m.shift { "shift-"@ } else { Seq::empty() };
    assert(t =~= c + (a + (sh + n)));
    let m3 = KeyModifiers { shift: m.shift, control: false, alt: false };
    assert(split_modifiers(n) == (n, no_modifiers()));
    let m2 = KeyModifiers { alt: m.alt, ..m3 };
    assert(split_modifiers(sh + n) == (n, m3)) by {
        if m.shift {
            assert((sh + n).subrange(6, (sh + n).len() as int) =~= n);
            assert((sh + n).subrange(0, 6) =~= "shift-"@);
            assert(!starts_with(sh + n, "ctrl-"@)) by {
                assert((sh + n)[0] != "ctrl-"@[0]);
            }
            assert(!starts_with(sh + n, "alt-"@)) by {
                assert((sh + n)[0] != "alt-"@[0]);
            }
        } else {
            assert(sh + n =~= n);
        }
    }
    assert(split_modifiers(a + (sh + n)) == (n, m2)) by {
        if m.alt {
            assert((a + (sh + n)).subrange(4, (a + (sh + n)).len() as int) =~= sh + n);
            assert((a + (sh + n)).subrange(0, 4) =~= "alt-"@);
            assert(!starts_with(a + (sh + n), "ctrl-"@)) by {
                assert((a + (sh + n))[0] != "ctrl-"@[0]);
            }
        } else {
            assert(a + (sh + n) =~= sh + n);
            if !m.shift {
                assert(sh + n =~= n);
            } else {
                assert(!starts_with(sh + n, "ctrl-"@)) by {
                    assert((sh + n)[0] != "ctrl-"@[0]);
                }
                assert(!starts_with(sh + n, "alt-"@)) by {
                    assert((sh + n)[0] != "alt-"@[0]);
                }
            }
        }
    }
    assert(split_modifiers(t) == (n, m)) by {
        if m.control {
            assert(t.subrange(5, t.len() as int) =~= a + (sh + n));
            assert(t.subrange(0, 5) =~= "ctrl-"@);
        } else {
            assert(t =~= a + (sh + n));
            if m.alt {
                assert(!starts_with(a + (sh + n), "ctrl-"@)) by {
                    assert((a + (sh + n))[0] != "ctrl-"@[0]);
                }
            } else if m.shift {
                assert(!starts_with(sh + n, "ctrl-"@)) by {
                    assert((sh + n)[0] != "ctrl-"@[0]);
                }
                assert(!starts_with(sh + n, "alt-"@)) by {
                    assert((sh + n)[0] != "alt-"@[0]);
                }
            }
        }
    }
    assert(plain_text(t)) by {
        assert forall|i: int| 0 <= i < t.len() implies #[trigger] t[i] != '<' && t[i] != '>'
            && crate::text::ascii_lower_char(t[i]) == t[i] by {
            let k = modifiers_text(m).len() as int;
            if i >= k {
                assert(t[i] == n[i - k]);
            }
        }
    }
}

proof fn lemma_count_concat(a: Seq<char>, b: Seq<char>, c: char)
    ensures
        count_char(a + b, c) == count_char(a, c) + count_char(b, c),
    decreases b.len(),
{
    if b.len() == 0 {
        assert(a + b =~= a);
    } else {
        lemma_count_concat(a, b.drop_last(), c);
        assert((a + b).drop_last() =~= a + b.drop_last());
    }
}

proof fn lemma_count_absent(s: Seq<char>, c: char)
    requires
        forall|i: int| 0 <= i < s.len() ==> #[trigger] s[i] != c,
    ensures
        count_char(s, c) == 0,
    decreases s.len(),
{
    if s.len() > 0 {
        lemma_count_absent(s.drop_last(), c);
    }
}

/// Writing a key press and reading the text back as a key sequence gives
/// that one key press again, for every key press whose written form names it
/// exactly.
pub proof fn law_key_text_reads_back(e: KeyEvent)
    requires
        written_exactly(e),
    ensures
        key_sequence_of(key_text(e)) == Ok::<Seq<KeyEvent>, Seq<char>>(seq![e]),
{
    let n = code_text(e.code);
    lemma_code_text(e);
    lemma_modifiers_text(e.modifiers, n);
    let mn = modifiers_text(e.modifiers) + n;
    let t = key_text(e);
    assert(t =~= seq!['<'] + mn + seq!['>']);
    assert(forall|i: int| 0 <= i < mn.len() ==> #[trigger] mn[i] != '<' && mn[i] != '>');
    lemma_count_absent(mn, '<');
    lemma_count_absent(mn, '>');
    lemma_count_concat(seq!['<'], mn, '<');
    lemma_count_concat(seq!['<'] + mn, seq!['>'], '<');
    lemma_count_concat(seq!['<'], mn, '>');
    lemma_count_concat(seq!['<'] + mn, seq!['>'], '>');
    assert(count_char(seq!['<'], '<') == 1) by {
        assert(seq!['<'].drop_last() =~= Seq::<char>::empty());
        reveal_with_fuel(count_char, 2);
    }
    assert(count_char(seq!['<'], '>') == 0) by {
        assert(seq!['<'].drop_last() =~= Seq::<char>::empty());
        reveal_with_fuel(count_char, 2);
    }
    assert(count_char(seq!['>'], '>') == 1) by {
        assert(seq!['>'].drop_last() =~= Seq::<char>::empty());
        reveal_with_fuel(count_char, 2);
    }
    assert(count_char(seq!['>'], '<') == 0) by {
        assert(seq!['>'].drop_last() =~= Seq::<char>::empty());
        reveal_with_fuel(count_char, 2);
    }
    reveal_strlit("><");
    let sep = "><"@;
    assert(!contains(t, sep)) by {
        assert forall|i: int| !occurs_at(t, sep, i) by {
            if occurs_at(t, sep, i) {
                assert(t.subrange(i, i + 2)[0] == sep[0]);
                assert(t[i] == '>');
                assert(i + 1 < t.len());
                if i >= 1 {
                    assert(t[i] == mn[i - 1]);
                }
            }
        }
    }
    let body = mn + seq!['>'];
    assert(drop_first_if(t, '<') =~= body);
    assert(body[0] == mn[0]);
    assert(drop_first_if(body, '>') == body);
    assert(find(body, sep) is None) by {
        assert forall|i: int| !is_first_occurrence(body, sep, i) by {
            if occurs_at(body, sep, i) {
                assert(body.subrange(i, i + 2)[0] == sep[0]);
                assert(body[i] == '>');
                assert(body[i] == mn[i]);
            }
        }
    }
    assert(split_str(body, sep) == seq![body]);
    assert(unbracketed(body) =~= mn);
    assert(sequence_parts(t) =~= seq![mn]);
    assert(crate::text::ascii_lower(mn) =~= mn);
    assert(key_event_of(mn) == Ok::<KeyEvent, Seq<char>>(e));
    assert(seq![mn].drop_first() =~= Seq::<Seq<char>>::empty());
    assert(seq![e] + Seq::<KeyEvent>::empty() =~= seq![e]);
    assert(key_events_of(Seq::<Seq<char>>::empty()) == Ok::<Seq<KeyEvent>, Seq<char>>(Seq::empty()));
    assert(key_events_of(seq![mn]) == Ok::<Seq<KeyEvent>, Seq<char>>(seq![e]));
    assert(count_char(t, '>') == count_char(t, '<'));
    assert(key_sequence_of(t) == key_events_of(sequence_parts(t)));
}


/// The text between the brackets of a written key press: the modifiers,
/// then the key.
pub open spec fn key_body(e: KeyEvent) -> Seq<char> {
    modifiers_text(e.modifiers) + code_text(e.code)
}

/// Key presses written one after another.
pub open spec fn keys_text(es: Seq<KeyEvent>) -> Seq<char>
    decreases es.len(),
{
    if es.len() == 0 {
        Seq::empty()
    } else {
        key_text(es[0]) + keys_text(es.drop_first())
    }
}

/// Writing one more key press adds its text at the end.
pub proof fn lemma_keys_text_push(es: Seq<KeyEvent>, e: KeyEvent)
    ensures
        keys_text(es.push(e)) =~= keys_text(es) + key_text(e),
    decreases es.len(),
{
    if es.len() == 0 {
        assert(es.push(e).drop_first() =~= Seq::<KeyEvent>::empty());
        assert(keys_text(Seq::<KeyEvent>::empty()) == Seq::<char>::empty());
    } else {
        lemma_keys_text_push(es.drop_first(), e);
        assert(es.push(e).drop_first() =~= es.drop_first().push(e));
        assert(es.push(e)[0] == es[0]);
    }
}

/// Written key presses after the first `<`: their bodies joined by `><`,
/// then a closing `>`.
spec fn joined_bodies(es: Seq<KeyEvent>) -> Seq<char>
    decreases es.len(),
{
    if es.len() <= 1 {
        key_body(es[0]) + seq!['>']
    } else {
        key_body(es[0]) + "><"@ + joined_bodies(es.drop_first())
    }
}

proof fn lemma_key_body(e: KeyEvent)
    requires
        written_exactly(e),
    ensures
        key_body(e).len() > 0,
        forall|i: int| 0 <= i < key_body(e).len() ==> #[trigger] key_body(e)[i] != '<' && key_body(e)[i] != '>',
        key_event_of(key_body(e)) == Ok::<KeyEvent, Seq<char>>(e),
        key_text(e) =~= seq!['<'] + key_body(e) + seq!['>'],
{
    let n = code_text(e.code);
    lemma_code_text(e);
    lemma_modifiers_text(e.modifiers, n);
    let mn = key_body(e);
    assert(crate::text::ascii_lower(mn) =~= mn);
}

proof fn lemma_keys_text_shape(es: Seq<KeyEvent>)
    requires
        es.len() >= 1,
    ensures
        keys_text(es) =~= seq!['<'] + joined_bodies(es),
    decreases es.len(),
{
    reveal_strlit("><");
    let e = es[0];
    assert(key_text(e) =~= seq!['<'] + key_body(e) + seq!['>']);
    let rest = es.drop_first();
    assert(keys_text(es) == key_text(e) + keys_text(rest));
    if es.len() == 1 {
        assert(rest.len() == 0);
        assert(keys_text(rest) == Seq::<char>::empty());
        assert(joined_bodies(es) == key_body(e) + seq!['>']);
    } else {
        lemma_keys_text_shape(rest);
        assert(joined_bodies(es) == key_body(e) + "><"@ + joined_bodies(rest));
        assert("><"@ =~= seq!['>', '<']);
    }
}

proof fn lemma_keys_count(es: Seq<KeyEvent>)
    requires
        forall|i: int| 0 <= i < es.len() ==> written_exactly(#[trigger] es[i]),
    ensures
        count_char(keys_text(es), '<') == es.len(),
        count_char(keys_text(es), '>') == es.len(),
    decreases es.len(),
{
    if es.len() > 0 {
        let e = es[0];
        let rest = es.drop_first();
        assert forall|i: int| 0 <= i < rest.len() implies written_exactly(#[trigger] rest[i]) by {
            assert(rest[i] == es[i + 1]);
        }
        lemma_keys_count(rest);
        lemma_key_body(e);
        let mn = key_body(e);
        lemma_count_absent(mn, '<');
        lemma_count_absent(mn, '>');
        lemma_count_concat(seq!['<'], mn, '<');
        lemma_count_concat(seq!['<'] + mn, seq!['>'], '<');
        lemma_count_concat(seq!['<'], mn, '>');
        lemma_count_concat(seq!['<'] + mn, seq!['>'], '>');
        lemma_count_concat(key_text(e), keys_text(rest), '<');
        lemma_count_concat(key_text(e), keys_text(rest), '>');
        assert(seq!['<'].drop_last() =~= Seq::<char>::empty());
        assert(seq!['>'].drop_last() =~= Seq::<char>::empty());
        assert(count_char(seq!['<'], '<') == 1) by {
            reveal_with_fuel(count_char, 2);
        }
        assert(count_char(seq!['<'], '>') == 0) by {
            reveal_with_fuel(count_char, 2);
        }
        assert(count_char(seq!['>'], '>') == 1) by {
            reveal_with_fuel(count_char, 2);
        }
        assert(count_char(seq!['>'], '<') == 0) by {
            reveal_with_fuel(count_char, 2);
        }
    }
}

/// `x`, then `><`, then anything: split first right after `x` when `x` holds
/// no `>`.
proof fn lemma_split_after(x: Seq<char>, rest: Seq<char>)
    requires
        forall|i: int| 0 <= i < x.len() ==> #[trigger] x[i] != '>',
    ensures
        split_str(x + "><"@ + rest, "><"@) == seq![x] + split_str(rest, "><"@),
{
    reveal_strlit("><");
    let sep = "><"@;
    let s = x + sep + rest;
    let xl = x.len() as int;
    assert(s.subrange(xl, xl + 2) =~= sep);
    assert forall|k: int| 0 <= k < xl implies !occurs_at(s, sep, k) by {
        if occurs_at(s, sep, k) {
            assert(s.subrange(k, k + 2)[0] == sep[0]);
            assert(s[k] == x[k]);
        }
    }
    assert(is_first_occurrence(s, sep, xl));
    let c = choose|i: int| is_first_occurrence(s, sep, i);
    assert(c == xl) by {
        if c < xl {
            assert(!occurs_at(s, sep, c));
        } else if c > xl {
            assert(!occurs_at(s, sep, xl));
        }
    }
    assert(find(s, sep) == Some(xl));
    assert(s.subrange(0, xl) =~= x);
    assert(s.subrange(xl + 2, s.len() as int) =~= rest);
}

/// Text with no `<` is not split at `><`.
proof fn lemma_split_none(s: Seq<char>)
    requires
        forall|i: int| 0 <= i < s.len() ==> #[trigger] s[i] != '<',
    ensures
        split_str(s, "><"@) == seq![s],
{
    reveal_strlit("><");
    let sep = "><"@;
    assert forall|i: int| !is_first_occurrence(s, sep, i) by {
        if occurs_at(s, sep, i) {
            assert(s.subrange(i, i + 2)[1] == sep[1]);
            assert(s[i + 1] == '<');
        }
    }
}

/// Splitting the joined bodies at `><` (with at most a leading `<` before
/// them) gives one piece per key press, and each piece without its brackets
/// is that key press's body.
proof fn lemma_split_joined(a: Seq<char>, es: Seq<KeyEvent>)
    requires
        es.len() >= 1,
        forall|i: int| 0 <= i < es.len() ==> written_exactly(#[trigger] es[i]),
        a.len() <= 1,
        a.len() == 1 ==> a[0] == '<' && es.len() >= 2,
    ensures
        split_str(a + joined_bodies(es), "><"@).len() == es.len(),
        forall|i: int| 0 <= i < es.len()
            ==> unbracketed(#[trigger] split_str(a + joined_bodies(es), "><"@)[i]) == key_body(es[i]),
    decreases es.len(),
{
    let e = es[0];
    lemma_key_body(e);
    let b = key_body(e);
    let p = split_str(a + joined_bodies(es), "><"@);
    if es.len() == 1 {
        let s = b + seq!['>'];
        assert(a =~= Seq::<char>::empty());
        assert(a + joined_bodies(es) =~= s);
        lemma_split_none(s);
        assert(s[0] == b[0]);
        assert(unbracketed(s) =~= b);
    } else {
        let rest = es.drop_first();
        assert forall|i: int| 0 <= i < rest.len() implies written_exactly(#[trigger] rest[i]) by {
            assert(rest[i] == es[i + 1]);
        }
        lemma_split_joined(Seq::empty(), rest);
        let x = a + b;
        assert forall|i: int| 0 <= i < x.len() implies #[trigger] x[i] != '>' by {
            if i >= a.len() {
                assert(x[i] == b[i - a.len()]);
            }
        }
        assert(a + joined_bodies(es) =~= x + "><"@ + joined_bodies(rest));
        assert(Seq::<char>::empty() + joined_bodies(rest) =~= joined_bodies(rest));
        lemma_split_after(x, joined_bodies(rest));
        if a.len() == 1 {
            assert(x.drop_first() =~= b);
        } else {
            assert(x =~= b);
            assert(b.last() == b[b.len() - 1]);
        }
        assert(unbracketed(x) == b);
        let q = split_str(joined_bodies(rest), "><"@);
        assert forall|i: int| 0 <= i < es.len() implies unbracketed(#[trigger] p[i]) == key_body(es[i]) by {
            if i > 0 {
                assert(p[i] == q[i - 1]);
                assert(es[i] == rest[i - 1]);
            }
        }
    }
}

proof fn lemma_key_events(parts: Seq<Seq<char>>, es: Seq<KeyEvent>)
    requires
        parts.len() == es.len(),
        forall|i: int| 0 <= i < es.len() ==> key_event_of(#[trigger] parts[i]) == Ok::<KeyEvent, Seq<char>>(es[i]),
    ensures
        key_events_of(parts) == Ok::<Seq<KeyEvent>, Seq<char>>(es),
    decreases es.len(),
{
    if es.len() == 0 {
        assert(es =~= Seq::<KeyEvent>::empty());
    } else {
        let p2 = parts.drop_first();
        let e2 = es.drop_first();
        assert forall|i: int| 0 <= i < e2.len() implies key_event_of(#[trigger] p2[i]) == Ok::<KeyEvent, Seq<char>>(e2[i]) by {
            assert(p2[i] == parts[i + 1]);
        }
        lemma_key_events(p2, e2);
        assert(key_event_of(parts[0]) == Ok::<KeyEvent, Seq<char>>(es[0]));
        assert(seq![es[0]] + e2 =~= es);
    }
}

/// Writing key presses one after another and reading the text back as a key
/// sequence gives those key presses again, in order, for every nonempty run
/// of key presses whose written forms name them exactly.
pub proof fn law_key_sequence_reads_back(es: Seq<KeyEvent>)
    requires
        es.len() >= 1,
        forall|i: int| 0 <= i < es.len() ==> written_exactly(#[trigger] es[i]),
    ensures
        key_sequence_of(keys_text(es)) == Ok::<Seq<KeyEvent>, Seq<char>>(es),
{
    if es.len() == 1 {
        law_key_text_reads_back(es[0]);
        assert(es.drop_first().len() == 0);
        assert(keys_text(es.drop_first()) == Seq::<char>::empty());
        assert(keys_text(es) =~= key_text(es[0]));
        assert(seq![es[0]] =~= es);
    } else {
        reveal_strlit("><");
        let sep = "><"@;
        let raw = keys_text(es);
        lemma_keys_count(es);
        lemma_keys_text_shape(es);
        lemma_keys_text_shape(es.drop_first());
        lemma_key_body(es[0]);
        let b = key_body(es[0]);
        let j = joined_bodies(es.drop_first());
        assert(raw =~= seq!['<'] + b + sep + j);
        let w: int = b.len() as int + 1;
        assert(raw.subrange(w, w + 2) =~= sep);
        assert(occurs_at(raw, sep, w));
        assert(contains(raw, sep));
        let a = seq!['<'];
        lemma_split_joined(a, es);
        let pieces = split_str(a + joined_bodies(es), sep);
        assert(a + joined_bodies(es) =~= raw);
        let parts = sequence_parts(raw);
        assert(parts == pieces.map_values(|q: Seq<char>| unbracketed(q)));
        assert forall|i: int| 0 <= i < es.len() implies key_event_of(#[trigger] parts[i]) == Ok::<KeyEvent, Seq<char>>(es[i]) by {
            lemma_key_body(es[i]);
            assert(parts[i] == unbracketed(pieces[i]));
        }
        lemma_key_events(parts, es);
    }
}

} // verus!
