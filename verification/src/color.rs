//! The colors of the taskwarrior configuration, as `task show` lists them
//! (`color.due.today  red on white`).
use vstd::prelude::*;

use crate::text::{
    char_vecs, chars_of, contains, contains_chars, has_prefix, push_str, split_char, split_chars,
    starts_with, strip_all_prefix, strip_all_prefix_chars, chars_eq_str, digit_value, is_digit,
};

verus! {

/// A terminal color.
#[derive(Debug, Clone, Copy, PartialEq, Eq, Structural)]
pub enum Color {
    Reset,
    Black,
    Red,
    Green,
    Yellow,
    Blue,
    Magenta,
    Cyan,
    Gray,
    DarkGray,
    LightRed,
    LightGreen,
    LightYellow,
    LightBlue,
    LightMagenta,
    LightCyan,
    White,
    Rgb(u8, u8, u8),
    Indexed(u8),
}

/// A foreground and a background color.
#[derive(Debug, Clone, Copy, PartialEq, Eq, Structural)]
pub struct TColor {
    pub fg: Color,
    pub bg: Color,
}

/// Text attributes, one bit each: bold, dim, italic, underlined, slow blink,
/// rapid blink, reversed, hidden, crossed out.
pub type Modifier = u16;

/// Bold.
pub const BOLD: Modifier = 1;

/// Italic.
pub const ITALIC: Modifier = 4;

/// Underlined.
pub const UNDERLINED: Modifier = 8;

/// Crossed out.
pub const CROSSED_OUT: Modifier = 256;

/// Reversed.
pub const REVERSED: Modifier = 64;

/// How text is drawn: its colors, if set, and the attributes added and removed.
#[derive(Debug, Clone, Copy, PartialEq, Eq, Structural)]
pub struct Style {
    pub fg: Option<Color>,
    pub bg: Option<Color>,
    pub add_modifier: Modifier,
    pub sub_modifier: Modifier,
}

/// The style that changes nothing.
pub open spec fn plain_style() -> Style {
    Style { fg: None, bg: None, add_modifier: 0, sub_modifier: 0 }
}

impl Style {
    /// The style that changes nothing.
    pub fn new() -> (r: Self)
        ensures
            r == plain_style(),
    {
        Style { fg: None, bg: None, add_modifier: 0, sub_modifier: 0 }
    }

    /// This style with `other` laid over it: its colors where it has them,
    /// its modifiers added and taken away.
    pub fn patch(self, other: Style) -> (r: Self)
        ensures
            r == patched(self, other),
    {
        Style {
            fg: match other.fg {
                Some(c) => Some(c),
                None => self.fg,
            },
            bg: match other.bg {
                Some(c) => Some(c),
                None => self.bg,
            },
            add_modifier: (self.add_modifier & !other.sub_modifier) | other.add_modifier,
            sub_modifier: (self.sub_modifier & !other.add_modifier) | other.sub_modifier,
        }
    }
}

/// `a` with `b` laid over it, as a terminal style is patched: the colors of
/// `b` where it has them, the modifiers that `b` takes away removed and those
/// it adds added.
pub open spec fn patched(a: Style, b: Style) -> Style {
    Style {
        fg: match b.fg {
            Some(c) => Some(c),
            None => a.fg,
        },
        bg: match b.bg {
            Some(c) => Some(c),
            None => a.bg,
        },
        add_modifier: (a.add_modifier & !b.sub_modifier) | b.add_modifier,
        sub_modifier: (a.sub_modifier & !b.add_modifier) | b.sub_modifier,
    }
}

/// Laying the plain style over a style, or a style over the plain style,
/// gives that style.
pub proof fn law_patch_plain_identity(a: Style)
    ensures
        patched(a, plain_style()) == a,
        patched(plain_style(), a) == a,
{
    let x = a.add_modifier;
    let y = a.sub_modifier;
    assert((x & !0u16) | 0u16 == x) by (bit_vector);
    assert((y & !0u16) | 0u16 == y) by (bit_vector);
    assert((0u16 & !y) | x == x) by (bit_vector);
    assert((0u16 & !x) | y == y) by (bit_vector);
}

/// Laying styles over one another one after the other is the same as laying
/// their combination: patching is associative.
pub proof fn law_patch_associative(a: Style, b: Style, c: Style)
    ensures
        patched(patched(a, b), c) == patched(a, patched(b, c)),
{
    let (aa, asub, ba, bs, ca, cs) = (a.add_modifier, a.sub_modifier, b.add_modifier, b.sub_modifier, c.add_modifier, c.sub_modifier);
    assert((((aa & !bs) | ba) & !cs) | ca == (aa & !((bs & !ca) | cs)) | ((ba & !cs) | ca)) by (bit_vector);
    assert((((asub & !ba) | bs) & !ca) | cs == (asub & !((ba & !cs) | ca)) | ((bs & !ca) | cs)) by (bit_vector);
}

/// Black on white.
pub open spec fn default_tcolor() -> TColor {
    TColor { fg: Color::Indexed(0), bg: Color::Indexed(15) }
}

impl TColor {
    /// Black on white.
    pub fn default() -> (r: Self)
        ensures
            r == default_tcolor(),
    {
        TColor { fg: Color::Indexed(0), bg: Color::Indexed(15) }
    }
}

/// How an indexed color is written.
pub const COLOR: &'static str = "color";

/// How a color of the 6x6x6 cube is written.
pub const RGB: &'static str = "rgb";

/// White.
pub const WHITE: &'static str = "white";

/// Black.
pub const BLACK: &'static str = "black";

/// What separates the foreground from the background.
pub const ON: &'static str = " on ";

/// What precedes a background given alone.
pub const ON_ALONE: &'static str = "on ";

/// How the color settings of `task show` begin.
pub const COLOR_DOT: &'static str = "color.";

/// The cube index of the digits `r`, `g`, `b`.
pub open spec fn cube_index(s: Seq<char>) -> nat {
    16 + digit_value(s[3]) * 36 + digit_value(s[4]) * 6 + digit_value(s[5])
}

/// The color that `s` names: `colorN` (one digit read), `rgbRGB`, `white`,
/// `black`; anything else is white.
pub open spec fn color_of(s: Seq<char>) -> Color {
    if starts_with(s, COLOR@) {
        Color::Indexed(digit_value(s[5]) as u8)
    } else if starts_with(s, RGB@) {
        Color::Indexed(cube_index(s) as u8)
    } else if s == WHITE@ {
        Color::White
    } else if s == BLACK@ {
        Color::Black
    } else {
        Color::Indexed(15)
    }
}

/// `s` names a color without reading a missing or non-digit character, and
/// a cube index fits in a byte.
pub open spec fn color_ok(s: Seq<char>) -> bool {
    &&& starts_with(s, COLOR@) ==> s.len() > 5 && is_digit(s[5])
    &&& !starts_with(s, COLOR@) && starts_with(s, RGB@) ==> s.len() > 5 && is_digit(s[3]) && is_digit(
        s[4],
    ) && is_digit(s[5]) && cube_index(s) <= 255
}

fn digit(c: char) -> (r: u8)
    requires
        is_digit(c),
    ensures
        r == digit_value(c),
{
    let n = c as u32;
    (n - 48) as u8
}

fn color_from(s: &[char]) -> (r: Color)
    requires
        color_ok(s@),
    ensures
        r == color_of(s@),
{
    if has_prefix(s, chars_of(COLOR).as_slice()) {
        Color::Indexed(digit(s[5]))
    } else if has_prefix(s, chars_of(RGB).as_slice()) {
        let red = digit(s[3]);
        let green = digit(s[4]);
        let blue = digit(s[5]);
        Color::Indexed(16 + red * 36 + green * 6 + blue)
    } else if chars_eq_str(s, WHITE) {
        Color::White
    } else if chars_eq_str(s, BLACK) {
        Color::Black
    } else {
        Color::Indexed(15)
    }
}

/// The color that `s` names.
pub fn get_color(s: &str) -> (r: Color)
    requires
        color_ok(s@),
    ensures
        r == color_of(s@),
{
    let c = chars_of(s);
    color_from(c.as_slice())
}

/// The colors that `line` names: `FG on BG`, `on BG` or `FG`, the words
/// separated by single spaces.
pub open spec fn tcolor_of(line: Seq<char>) -> TColor {
    let w = split_char(line, ' ');
    if contains(line, ON@) {
        TColor { fg: color_of(w[0]), bg: color_of(w[2]) }
    } else if contains(line, ON_ALONE@) {
        TColor { fg: Color::Indexed(0), bg: color_of(w[1]) }
    } else {
        TColor { fg: color_of(line), bg: Color::Indexed(15) }
    }
}

/// The words of `line` that name colors are well formed.
pub open spec fn tcolor_ok(line: Seq<char>) -> bool {
    let w = split_char(line, ' ');
    if contains(line, ON@) {
        w.len() > 2 && color_ok(w[0]) && color_ok(w[2])
    } else if contains(line, ON_ALONE@) {
        w.len() > 1 && color_ok(w[1])
    } else {
        color_ok(line)
    }
}

/// The colors that `line` names.
pub fn get_tcolor(line: &str) -> (r: TColor)
    requires
        tcolor_ok(line@),
    ensures
        r == tcolor_of(line@),
{
    let l = chars_of(line);
    tcolor_from(l.as_slice())
}

fn tcolor_from(l: &[char]) -> (r: TColor)
    requires
        tcolor_ok(l@),
    ensures
        r == tcolor_of(l@),
{
    if contains_chars(l, chars_of(ON).as_slice()) {
        let w = split_chars(l, ' ');
        TColor { fg: color_from(w[0].as_slice()), bg: color_from(w[2].as_slice()) }
    } else if contains_chars(l, chars_of(ON_ALONE).as_slice()) {
        let w = split_chars(l, ' ');
        TColor { fg: Color::Indexed(0), bg: color_from(w[1].as_slice()) }
    } else {
        TColor { fg: color_from(l), bg: Color::Indexed(15) }
    }
}

/// What starts a line of `task show` that sets attribute `a`.
pub open spec fn color_prefix(a: Seq<char>) -> Seq<char> {
    COLOR_DOT@ + a + seq![' ']
}

/// The value on a line that sets attribute `a`: the line without its leading
/// copies of the prefix and then without its leading spaces.
pub open spec fn setting_of(line: Seq<char>, a: Seq<char>) -> Seq<char> {
    strip_all_prefix(strip_all_prefix(line, color_prefix(a)), seq![' '])
}

/// The value of attribute `a` on the last line of `lines` that sets it.
pub open spec fn setting_value(lines: Seq<Seq<char>>, a: Seq<char>) -> Option<Seq<char>>
    decreases lines.len(),
{
    if lines.len() == 0 {
        None
    } else if starts_with(lines.last(), color_prefix(a)) {
        Some(setting_of(lines.last(), a))
    } else {
        setting_value(lines.drop_last(), a)
    }
}

/// The colors of attribute `a`: from the last line that sets it, else black on white.
pub open spec fn configured_tcolor(lines: Seq<Seq<char>>, a: Seq<char>) -> TColor {
    match setting_value(lines, a) {
        Some(v) => tcolor_of(v),
        None => default_tcolor(),
    }
}

/// Every line of `data` that sets one of the searched attributes holds
/// well-formed colors.
#[verifier::opaque]
pub open spec fn colors_ok(data: Seq<char>) -> bool {
    let lines = split_char(data, '\n');
    forall|i: int, k: int|
        #![trigger lines[i], attributes()[k]]
        0 <= i < lines.len() && 0 <= k < attributes().len() && starts_with(
            lines[i],
            color_prefix(attributes()[k]),
        ) ==> tcolor_ok(setting_of(lines[i], attributes()[k]))
}

proof fn lemma_attribute_ok(data: Seq<char>, k: int, a: Seq<char>, ls: Seq<Seq<char>>)
    requires
        colors_ok(data),
        0 <= k < attributes().len(),
        attributes()[k] == a,
        ls == split_char(data, '\n'),
    ensures
        forall|i: int|
            0 <= i < ls.len() && starts_with(#[trigger] ls[i], color_prefix(a)) ==> tcolor_ok(
                setting_of(ls[i], a),
            ),
{
    reveal(colors_ok);
}

fn configured(lines: &Vec<Vec<char>>, attr: &str) -> (r: TColor)
    requires
        forall|i: int|
            0 <= i < lines@.len() && starts_with(#[trigger] char_vecs(lines@)[i], color_prefix(attr@))
                ==> tcolor_ok(setting_of(char_vecs(lines@)[i], attr@)),
    ensures
        r == configured_tcolor(char_vecs(lines@), attr@),
{
    let ghost ls = char_vecs(lines@);
    let mut prefix = chars_of(COLOR_DOT);
    push_str(&mut prefix, attr);
    prefix.push(' ');
    assert(prefix@ =~= color_prefix(attr@));
    let space = vec![' '];
    assert(space@ =~= seq![' ']);
    let mut j = lines.len();
    assert(ls.take(j as int) =~= ls);
    while j > 0
        invariant
            j <= lines@.len(),
            ls == char_vecs(lines@),
            prefix@ == color_prefix(attr@),
            space@ == seq![' '],
            setting_value(ls, attr@) == setting_value(ls.take(j as int), attr@),
            forall|i: int|
                0 <= i < lines@.len() && starts_with(#[trigger] char_vecs(lines@)[i], color_prefix(attr@))
                    ==> tcolor_ok(setting_of(char_vecs(lines@)[i], attr@)),
        decreases j,
    {
        let line = lines[j - 1].as_slice();
        assert(line@ == ls[j - 1]);
        assert(ls.take(j as int).last() == ls[j - 1]);
        if has_prefix(line, prefix.as_slice()) {
            let v1 = strip_all_prefix_chars(line, prefix.as_slice());
            let v = strip_all_prefix_chars(v1.as_slice(), space.as_slice());
            return tcolor_from(v.as_slice());
        }
        assert(ls.take(j as int).drop_last() =~= ls.take(j - 1));
        j -= 1;
    }
    TColor::default()
}

fn configured_attribute(lines: &Vec<Vec<char>>, attr: &str, Ghost(data): Ghost<Seq<char>>, Ghost(k): Ghost<int>) -> (r: TColor)
    requires
        colors_ok(data),
        0 <= k < attributes().len(),
        attributes()[k] == attr@,
        char_vecs(lines@) == split_char(data, '\n'),
    ensures
        r == configured_tcolor(char_vecs(lines@), attr@),
{
    proof {
        lemma_attribute_ok(data, k, attr@, char_vecs(lines@));
    }
    configured(lines, attr)
}

/// The color attributes whose lines `task show` is searched for, in order.
#[verifier::opaque]
pub open spec fn attributes() -> Seq<Seq<char>> {
    seq![
        "alternate"@,
        "blocked"@,
        "blocking"@,
        "burndown.done"@,
        "burndown.pending"@,
        "burndown.started"@,
        "calendar.due"@,
        "calendar.due.today"@,
        "calendar.holiday"@,
        "calendar.overdue"@,
        "calendar.today"@,
        "calendar.weekend"@,
        "calendar.weeknumber"@,
        "completed"@,
        "debug"@,
        "deleted"@,
        "due"@,
        "due.today"@,
        "error"@,
        "footnote"@,
        "header"@,
        "header.add"@,
        "history.delete"@,
        "history.done"@,
        "label"@,
        "label.sort"@,
        "overdue"@,
        "project.none"@,
        "recurring"@,
        "scheduled"@,
        "summary.background"@,
        "summary.bar"@,
        "sync.added"@,
        "sync.changed"@,
        "sync.rejected"@,
        "tag.next"@,
        "tag.none"@,
        "tagged"@,
        "uda.priority"@,
        "uda.priority.H"@,
        "uda.priority.L"@,
        "uda.priority.M"@,
        "undo.after"@,
        "undo.before"@,
        "undo.until"@,
        "until"@,
        "warning"@,
    ]
}

/// The colors of the taskwarrior configuration.
pub struct TColorConfig {
    pub enabled: bool,
    pub active: TColor,
    pub alternate: TColor,
    pub blocked: TColor,
    pub blocking: TColor,
    pub burndown_done: TColor,
    pub burndown_pending: TColor,
    pub burndown_started: TColor,
    pub calendar_due: TColor,
    pub calendar_due_today: TColor,
    pub calendar_holiday: TColor,
    pub calendar_overdue: TColor,
    pub calendar_today: TColor,
    pub calendar_weekend: TColor,
    pub calendar_weeknumber: TColor,
    pub completed: TColor,
    pub debug: TColor,
    pub deleted: TColor,
    pub due: TColor,
    pub due_today: TColor,
    pub error: TColor,
    pub footnote: TColor,
    pub header: TColor,
    pub history_add: TColor,
    pub history_delete: TColor,
    pub history_done: TColor,
    pub label: TColor,
    pub label_sort: TColor,
    pub overdue: TColor,
    pub project: TColor,
    pub recurring: TColor,
    pub scheduled: TColor,
    pub summary_background: TColor,
    pub summary_bar: TColor,
    pub sync_added: TColor,
    pub sync_changed: TColor,
    pub sync_rejected: TColor,
    pub tag_next: TColor,
    pub tag: TColor,
    pub tagged: TColor,
    pub uda_priority: TColor,
    pub uda_priority_h: TColor,
    pub uda_priority_l: TColor,
    pub uda_priority_m: TColor,
    pub undo_after: TColor,
    pub undo_before: TColor,
    pub until: TColor,
    pub warning: TColor,
}

proof fn lemma_attributes()
    ensures
        attributes().len() == 47,
        attributes()[0] == "alternate"@,
        attributes()[1] == "blocked"@,
        attributes()[2] == "blocking"@,
        attributes()[3] == "burndown.done"@,
        attributes()[4] == "burndown.pending"@,
        attributes()[5] == "burndown.started"@,
        attributes()[6] == "calendar.due"@,
        attributes()[7] == "calendar.due.today"@,
        attributes()[8] == "calendar.holiday"@,
        attributes()[9] == "calendar.overdue"@,
        attributes()[10] == "calendar.today"@,
        attributes()[11] == "calendar.weekend"@,
        attributes()[12] == "calendar.weeknumber"@,
        attributes()[13] == "completed"@,
        attributes()[14] == "debug"@,
        attributes()[15] == "deleted"@,
        attributes()[16] == "due"@,
        attributes()[17] == "due.today"@,
        attributes()[18] == "error"@,
        attributes()[19] == "footnote"@,
        attributes()[20] == "header"@,
        attributes()[21] == "header.add"@,
        attributes()[22] == "history.delete"@,
        attributes()[23] == "history.done"@,
        attributes()[24] == "label"@,
        attributes()[25] == "label.sort"@,
        attributes()[26] == "overdue"@,
        attributes()[27] == "project.none"@,
        attributes()[28] == "recurring"@,
        attributes()[29] == "scheduled"@,
        attributes()[30] == "summary.background"@,
        attributes()[31] == "summary.bar"@,
        attributes()[32] == "sync.added"@,
        attributes()[33] == "sync.changed"@,
        attributes()[34] == "sync.rejected"@,
        attributes()[35] == "tag.next"@,
        attributes()[36] == "tag.none"@,
        attributes()[37] == "tagged"@,
        attributes()[38] == "uda.priority"@,
        attributes()[39] == "uda.priority.H"@,
        attributes()[40] == "uda.priority.L"@,
        attributes()[41] == "uda.priority.M"@,
        attributes()[42] == "undo.after"@,
        attributes()[43] == "undo.before"@,
        attributes()[44] == "undo.until"@,
        attributes()[45] == "until"@,
        attributes()[46] == "warning"@,
{
    reveal(attributes);
}

impl TColorConfig {
    /// The colors that the output `data` of `task show` sets up.
    pub fn from_show(data: &str) -> (r: Self)
        requires
            colors_ok(data@),
        ensures
            r.active == default_tcolor(),
            r.alternate == configured_tcolor(split_char(data@, '\n'), "alternate"@),
            r.blocked == configured_tcolor(split_char(data@, '\n'), "blocked"@),
            r.blocking == configured_tcolor(split_char(data@, '\n'), "blocking"@),
            r.burndown_done == configured_tcolor(split_char(data@, '\n'), "burndown.done"@),
            r.burndown_pending == configured_tcolor(split_char(data@, '\n'), "burndown.pending"@),
            r.burndown_started == configured_tcolor(split_char(data@, '\n'), "burndown.started"@),
            r.calendar_due == configured_tcolor(split_char(data@, '\n'), "calendar.due"@),
            r.calendar_due_today == configured_tcolor(split_char(data@, '\n'), "calendar.due.today"@),
            r.calendar_holiday == configured_tcolor(split_char(data@, '\n'), "calendar.holiday"@),
            r.calendar_overdue == configured_tcolor(split_char(data@, '\n'), "calendar.overdue"@),
            r.calendar_today == configured_tcolor(split_char(data@, '\n'), "calendar.today"@),
            r.calendar_weekend == configured_tcolor(split_char(data@, '\n'), "calendar.weekend"@),
            r.calendar_weeknumber == configured_tcolor(split_char(data@, '\n'), "calendar.weeknumber"@),
            r.completed == configured_tcolor(split_char(data@, '\n'), "completed"@),
            r.debug == configured_tcolor(split_char(data@, '\n'), "debug"@),
            r.deleted == configured_tcolor(split_char(data@, '\n'), "deleted"@),
            r.due == configured_tcolor(split_char(data@, '\n'), "due"@),
            r.due_today == configured_tcolor(split_char(data@, '\n'), "due.today"@),
            r.error == configured_tcolor(split_char(data@, '\n'), "error"@),
            r.footnote == configured_tcolor(split_char(data@, '\n'), "footnote"@),
            r.header == configured_tcolor(split_char(data@, '\n'), "header"@),
            r.history_add == default_tcolor(),
            r.history_delete == configured_tcolor(split_char(data@, '\n'), "history.delete"@),
            r.history_done == configured_tcolor(split_char(data@, '\n'), "history.done"@),
            r.label == configured_tcolor(split_char(data@, '\n'), "label"@),
            r.label_sort == configured_tcolor(split_char(data@, '\n'), "label.sort"@),
            r.overdue == configured_tcolor(split_char(data@, '\n'), "overdue"@),
            r.project == default_tcolor(),
            r.recurring == configured_tcolor(split_char(data@, '\n'), "recurring"@),
            r.scheduled == configured_tcolor(split_char(data@, '\n'), "scheduled"@),
            r.summary_background == configured_tcolor(split_char(data@, '\n'), "summary.background"@),
            r.summary_bar == default_tcolor(),
            r.sync_added == configured_tcolor(split_char(data@, '\n'), "sync.added"@),
            r.sync_changed == configured_tcolor(split_char(data@, '\n'), "sync.changed"@),
            r.sync_rejected == configured_tcolor(split_char(data@, '\n'), "sync.rejected"@),
            r.tag_next == configured_tcolor(split_char(data@, '\n'), "tag.next"@),
            r.tag == default_tcolor(),
            r.tagged == configured_tcolor(split_char(data@, '\n'), "tagged"@),
            r.uda_priority == configured_tcolor(split_char(data@, '\n'), "uda.priority"@),
            r.uda_priority_h == default_tcolor(),
            r.uda_priority_l == default_tcolor(),
            r.uda_priority_m == default_tcolor(),
            r.undo_after == configured_tcolor(split_char(data@, '\n'), "undo.after"@),
            r.undo_before == configured_tcolor(split_char(data@, '\n'), "undo.before"@),
            r.until == configured_tcolor(split_char(data@, '\n'), "until"@),
            r.warning == configured_tcolor(split_char(data@, '\n'), "warning"@),
            r.enabled,
    {
        proof {
            lemma_attributes();
        }
        let d = chars_of(data);
        let lines = split_chars(d.as_slice(), '\n');
        let ghost ls = split_char(data@, '\n');
        proof {
            assert forall|k: int| 0 <= k < lines@.len() implies #[trigger] char_vecs(lines@)[k] == ls[k] by {}
            assert(char_vecs(lines@) =~= ls);
        }
        let alternate = configured_attribute(&lines, "alternate", Ghost(data@), Ghost(0));
        let blocked = configured_attribute(&lines, "blocked", Ghost(data@), Ghost(1));
        let blocking = configured_attribute(&lines, "blocking", Ghost(data@), Ghost(2));
        let burndown_done = configured_attribute(&lines, "burndown.done", Ghost(data@), Ghost(3));
        let burndown_pending = configured_attribute(&lines, "burndown.pending", Ghost(data@), Ghost(4));
        let burndown_started = configured_attribute(&lines, "burndown.started", Ghost(data@), Ghost(5));
        let calendar_due = configured_attribute(&lines, "calendar.due", Ghost(data@), Ghost(6));
        let calendar_due_today = configured_attribute(&lines, "calendar.due.today", Ghost(data@), Ghost(7));
        let calendar_holiday = configured_attribute(&lines, "calendar.holiday", Ghost(data@), Ghost(8));
        let calendar_overdue = configured_attribute(&lines, "calendar.overdue", Ghost(data@), Ghost(9));
        let calendar_today = configured_attribute(&lines, "calendar.today", Ghost(data@), Ghost(10));
        let calendar_weekend = configured_attribute(&lines, "calendar.weekend", Ghost(data@), Ghost(11));
        let calendar_weeknumber = configured_attribute(&lines, "calendar.weeknumber", Ghost(data@), Ghost(12));
        let completed = configured_attribute(&lines, "completed", Ghost(data@), Ghost(13));
        let debug = configured_attribute(&lines, "debug", Ghost(data@), Ghost(14));
        let deleted = configured_attribute(&lines, "deleted", Ghost(data@), Ghost(15));
        let due = configured_attribute(&lines, "due", Ghost(data@), Ghost(16));
        let due_today = configured_attribute(&lines, "due.today", Ghost(data@), Ghost(17));
        let error = configured_attribute(&lines, "error", Ghost(data@), Ghost(18));
        let footnote = configured_attribute(&lines, "footnote", Ghost(data@), Ghost(19));
        let header = configured_attribute(&lines, "header", Ghost(data@), Ghost(20));
        let history_delete = configured_attribute(&lines, "history.delete", Ghost(data@), Ghost(22));
        let history_done = configured_attribute(&lines, "history.done", Ghost(data@), Ghost(23));
        let label = configured_attribute(&lines, "label", Ghost(data@), Ghost(24));
        let label_sort = configured_attribute(&lines, "label.sort", Ghost(data@), Ghost(25));
        let overdue = configured_attribute(&lines, "overdue", Ghost(data@), Ghost(26));
        let recurring = configured_attribute(&lines, "recurring", Ghost(data@), Ghost(28));
        let scheduled = configured_attribute(&lines, "scheduled", Ghost(data@), Ghost(29));
        let summary_background = configured_attribute(&lines, "summary.background", Ghost(data@), Ghost(30));
        let sync_added = configured_attribute(&lines, "sync.added", Ghost(data@), Ghost(32));
        let sync_changed = configured_attribute(&lines, "sync.changed", Ghost(data@), Ghost(33));
        let sync_rejected = configured_attribute(&lines, "sync.rejected", Ghost(data@), Ghost(34));
        let tag_next = configured_attribute(&lines, "tag.next", Ghost(data@), Ghost(35));
        let tagged = configured_attribute(&lines, "tagged", Ghost(data@), Ghost(37));
        let uda_priority = configured_attribute(&lines, "uda.priority", Ghost(data@), Ghost(38));
        let undo_after = configured_attribute(&lines, "undo.after", Ghost(data@), Ghost(42));
        let undo_before = configured_attribute(&lines, "undo.before", Ghost(data@), Ghost(43));
        let until = configured_attribute(&lines, "until", Ghost(data@), Ghost(45));
        let warning = configured_attribute(&lines, "warning", Ghost(data@), Ghost(46));
        TColorConfig {
            enabled: true,
            active: TColor::default(),
            alternate,
            blocked,
            blocking,
            burndown_done,
            burndown_pending,
            burndown_started,
            calendar_due,
            calendar_due_today,
            calendar_holiday,
            calendar_overdue,
            calendar_today,
            calendar_weekend,
            calendar_weeknumber,
            completed,
            debug,
            deleted,
            due,
            due_today,
            error,
            footnote,
            header,
            history_add: TColor::default(),
            history_delete,
            history_done,
            label,
            label_sort,
            overdue,
            project: TColor::default(),
            recurring,
            scheduled,
            summary_background,
            summary_bar: TColor::default(),
            sync_added,
            sync_changed,
            sync_rejected,
            tag_next,
            tag: TColor::default(),
            tagged,
            uda_priority,
            uda_priority_h: TColor::default(),
            uda_priority_l: TColor::default(),
            uda_priority_m: TColor::default(),
            undo_after,
            undo_before,
            until,
            warning,
        }
    }
}

} // verus!
