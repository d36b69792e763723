//! The taskwarrior configuration as `task show` prints it, and the settings
//! of the interface read from it.
use vstd::prelude::*;

use crate::color::{Color, Modifier, Style, BOLD, CROSSED_OUT, ITALIC, REVERSED, UNDERLINED};
use crate::text::{
    decimal_chars, decimal_of,
    chars_eq,
    all_ascii, ascii_lower, ascii_lower_chars, lowercase, str_to_lowercase, utf8_len, char_utf8_len, contains, contains_chars, find, find_chars,
    is_ascii_text, replace_all, replace_all_chars, trim_end, trim_end_chars,
    trim_start, trim_start_chars, words, words_chars, char_vecs, chars_eq_str, chars_of, has_prefix, join, join_chars, parse_unsigned,
    parse_unsigned_chars, push_all, push_str, replace_char, replace_char_chars, slice_range,
    split_char, split_chars, starts_with, string_of, strip_all_prefix, strip_all_prefix_chars,
    trim, trim_chars,
};

verus! {

/// What a taskwarrior boolean setting says: `true`, `1`, `y`, `yes`, `on`
/// for yes; `false`, `0`, `n`, `no`, `off` for no; anything else nothing.
pub open spec fn bool_of(s: Seq<char>) -> Option<bool> {
    if s == "true"@ || s == "1"@ || s == "y"@ || s == "yes"@ || s == "on"@ {
        Some(true)
    } else if s == "false"@ || s == "0"@ || s == "n"@ || s == "no"@ || s == "off"@ {
        Some(false)
    } else {
        None
    }
}

/// Reading a taskwarrior boolean setting.
pub trait TaskWarriorBool {
    /// The text read.
    spec fn text(&self) -> Seq<char>;

    /// What the setting says.
    fn get_bool(&self) -> (r: Option<bool>)
        ensures
            r == bool_of(self.text()),
    ;
}

fn bool_of_chars(s: &[char]) -> (r: Option<bool>)
    ensures
        r == bool_of(s@),
{
    if chars_eq_str(s, "true") || chars_eq_str(s, "1") || chars_eq_str(s, "y") || chars_eq_str(s, "yes")
        || chars_eq_str(s, "on") {
        Some(true)
    } else if chars_eq_str(s, "false") || chars_eq_str(s, "0") || chars_eq_str(s, "n") || chars_eq_str(
        s,
        "no",
    ) || chars_eq_str(s, "off") {
        Some(false)
    } else {
        None
    }
}

impl TaskWarriorBool for String {
    open spec fn text(&self) -> Seq<char> {
        self@
    }

    fn get_bool(&self) -> (r: Option<bool>) {
        let c = chars_of(self.as_str());
        bool_of_chars(c.as_slice())
    }
}

impl TaskWarriorBool for str {
    open spec fn text(&self) -> Seq<char> {
        self@
    }

    fn get_bool(&self) -> (r: Option<bool>) {
        let c = chars_of(self);
        bool_of_chars(c.as_slice())
    }
}

/// The value on `line` of setting `key`: the line without its leading copies
/// of `key` (or of `key` with `-` written `_`), trimmed.
pub open spec fn setting_on(line: Seq<char>, key: Seq<char>) -> Option<Seq<char>> {
    if starts_with(line, key) {
        Some(trim(strip_all_prefix(line, key)))
    } else {
        let k2 = replace_char(key, '-', '_');
        if starts_with(line, k2) {
            Some(trim(strip_all_prefix(line, k2)))
        } else {
            None
        }
    }
}

/// The lines at the front of `lines` that continue a value (indented by three
/// spaces), trimmed.
pub open spec fn continuation(lines: Seq<Seq<char>>) -> Seq<Seq<char>>
    decreases lines.len(),
{
    if lines.len() > 0 && starts_with(lines[0], "   "@) {
        seq![trim(lines[0])] + continuation(lines.drop_first())
    } else {
        Seq::empty()
    }
}

/// The value of setting `key` among `lines`: from the first line that sets
/// it, joined by spaces with the lines that continue it.
pub open spec fn setting_in(lines: Seq<Seq<char>>, key: Seq<char>) -> Option<Seq<char>>
    decreases lines.len(),
{
    if lines.len() == 0 {
        None
    } else {
        match setting_on(lines[0], key) {
            Some(v) => Some(join(seq![v] + continuation(lines.drop_first()), ' ')),
            None => setting_in(lines.drop_first(), key),
        }
    }
}

/// The value of setting `key` in the output `data` of `task show`.
pub open spec fn config_value(key: Seq<char>, data: Seq<char>) -> Option<Seq<char>> {
    setting_in(split_char(data, '\n'), key)
}

fn setting_on_chars(line: &[char], key: &[char]) -> (r: Option<Vec<char>>)
    ensures
        match setting_on(line@, key@) {
            Some(v) => r matches Some(x) && x@ == v,
            None => r is None,
        },
{
    if has_prefix(line, key) {
        let s = strip_all_prefix_chars(line, key);
        Some(trim_chars(s.as_slice()))
    } else {
        let k2 = replace_char_chars(key, '-', '_');
        if has_prefix(line, k2.as_slice()) {
            let s = strip_all_prefix_chars(line, k2.as_slice());
            Some(trim_chars(s.as_slice()))
        } else {
            None
        }
    }
}

impl Config {
/// The value of setting `key` in the output `data` of `task show`, with the
/// lines that continue it.
pub fn get_config(key: &str, data: &str) -> (r: Option<String>)
    ensures
        match config_value(key@, data@) {
            Some(v) => r matches Some(x) && x@ == v,
            None => r is None,
        },
{
    let k = chars_of(key);
    let d = chars_of(data);
    let lines = split_chars(d.as_slice(), '\n');
    let ghost ls = split_char(data@, '\n');
    let n = lines.len();
    let mut i: usize = 0;
    assert(ls.skip(0) =~= ls);
    while i < n
        invariant
            n == lines@.len(),
            n == ls.len(),
            k@ == key@,
            ls == split_char(data@, '\n'),
            i <= n,
            forall|q: int| 0 <= q < n ==> #[trigger] lines@[q]@ == ls[q],
            setting_in(ls, key@) == setting_in(ls.skip(i as int), key@),
        decreases n - i,
    {
        let ghost rest = ls.skip(i as int);
        assert(rest[0] == ls[i as int]);
        match setting_on_chars(lines[i].as_slice(), k.as_slice()) {
            Some(v) => {
                let mut parts: Vec<Vec<char>> = vec![v];
                let mut j = i + 1;
                assert(rest.drop_first() =~= ls.skip(j as int));
                assert(char_vecs(parts@) =~= seq![v@]);
                proof {
                    assert(seq![v@] + continuation(ls.skip(j as int)) =~= char_vecs(parts@) + continuation(ls.skip(j as int)));
                    assert(setting_in(ls, key@) == Some(join(seq![v@] + continuation(ls.skip(i + 1)), ' ')));
                }
                while j < n && has_prefix(lines[j].as_slice(), chars_of("   ").as_slice())
                    invariant
                        n == lines@.len(),
                        n == ls.len(),
                        i < j <= n,
                        forall|q: int| 0 <= q < n ==> #[trigger] lines@[q]@ == ls[q],
                        parts@.len() >= 1,
                        ls == split_char(data@, '\n'),
                        setting_in(ls, key@) == Some(join(seq![v@] + continuation(ls.skip(i + 1)), ' ')),
                        seq![v@] + continuation(ls.skip(i + 1)) == char_vecs(parts@) + continuation(ls.skip(j as int)),
                    decreases n - j,
                {
                    let ghost before = char_vecs(parts@);
                    let ghost tail = ls.skip(j as int);
                    assert(tail[0] == ls[j as int]);
                    assert(tail.drop_first() =~= ls.skip(j + 1));
                    let t = trim_chars(lines[j].as_slice());
                    parts.push(t);
                    proof {
                        assert(char_vecs(parts@) =~= before.push(trim(ls[j as int])));
                        assert(continuation(tail) == seq![trim(ls[j as int])] + continuation(ls.skip(j + 1)));
                        assert(before + continuation(tail) =~= char_vecs(parts@) + continuation(ls.skip(j + 1)));
                    }
                    j += 1;
                }
                proof {
                    let tail = ls.skip(j as int);
                    if j < n {
                        assert(tail[0] == ls[j as int]);
                        assert(!starts_with(tail[0], "   "@));
                    }
                    assert(continuation(tail) =~= Seq::<Seq<char>>::empty());
                    assert(char_vecs(parts@) + continuation(tail) =~= char_vecs(parts@));
                }
                let joined = join_chars(&parts, ' ');
                return Some(string_of(joined.as_slice()));
            },
            None => {
                assert(rest.drop_first() =~= ls.skip(i + 1));
            },
        }
        i += 1;
    }
    assert(ls.skip(n as int) =~= Seq::<Seq<char>>::empty());
    None
}

}


/// The index (0 to 7) of a plain color name, trimmed.
pub open spec fn named_index(s: Seq<char>) -> Option<u8> {
    let t = trim(s);
    if t == "black"@ {
        Some(0u8)
    } else if t == "red"@ {
        Some(1u8)
    } else if t == "green"@ {
        Some(2u8)
    } else if t == "yellow"@ {
        Some(3u8)
    } else if t == "blue"@ {
        Some(4u8)
    } else if t == "magenta"@ {
        Some(5u8)
    } else if t == "cyan"@ {
        Some(6u8)
    } else if t == "white"@ {
        Some(7u8)
    } else {
        None
    }
}

fn named_color_index(s: &[char]) -> (r: Option<u8>)
    ensures
        r == named_index(s@),
{
    let t = trim_chars(s);
    let t = t.as_slice();
    if chars_eq_str(t, "black") {
        Some(0)
    } else if chars_eq_str(t, "red") {
        Some(1)
    } else if chars_eq_str(t, "green") {
        Some(2)
    } else if chars_eq_str(t, "yellow") {
        Some(3)
    } else if chars_eq_str(t, "blue") {
        Some(4)
    } else if chars_eq_str(t, "magenta") {
        Some(5)
    } else if chars_eq_str(t, "cyan") {
        Some(6)
    } else if chars_eq_str(t, "white") {
        Some(7)
    } else {
        None
    }
}

/// The base-6 digit value of `c`, if it is one.
pub open spec fn base6(c: char) -> Option<u8> {
    if '0' <= c <= '5' {
        Some(((c as u32) - 48) as u8)
    } else {
        None
    }
}


/// The color that a taskwarrior color name gives: `bright NAME` or `bold
/// NAME` (indices 8 to 15), `colorN`, `grayN` for N up to 23 (232 on), `rgbRGB` (the 6x6x6
/// cube from 16), or a plain name (0 to 7); nothing for anything else.
pub open spec fn color_named(s: Seq<char>) -> Option<Color> {
    let t = trim(s);
    if t.len() == 0 {
        None
    } else if starts_with(t, "bright "@) {
        match named_index(t.subrange(7, t.len() as int)) {
            Some(i) => Some(Color::Indexed((i + 8) as u8)),
            None => None,
        }
    } else if starts_with(t, "bold "@) {
        match named_index(t.subrange(5, t.len() as int)) {
            Some(i) => Some(Color::Indexed((i + 8) as u8)),
            None => None,
        }
    } else if starts_with(t, "color"@) {
        match parse_unsigned(t.subrange(5, t.len() as int), 255) {
            Some(n) => Some(Color::Indexed(n as u8)),
            None => None,
        }
    } else if starts_with(t, "gray"@) {
        match parse_unsigned(t.subrange(4, t.len() as int), 255) {
            Some(n) => if n <= 23 {
                Some(Color::Indexed((232 + n) as u8))
            } else {
                None
            },
            None => None,
        }
    } else if starts_with(t, "rgb"@) {
        let rest = t.subrange(3, t.len() as int);
        if rest.len() >= 3 {
            match (base6(rest[0]), base6(rest[1]), base6(rest[2])) {
                (Some(r), Some(g), Some(b)) => Some(Color::Indexed((16 + r * 36 + g * 6 + b) as u8)),
                _ => None,
            }
        } else {
            None
        }
    } else {
        match named_index(t) {
            Some(i) => Some(Color::Indexed(i)),
            None => None,
        }
    }
}

fn base6_of(c: char) -> (r: Option<u8>)
    ensures
        r == base6(c),
{
    if '0' <= c && c <= '5' {
        Some(((c as u32) - 48) as u8)
    } else {
        None
    }
}

fn parse_color(s: &[char]) -> (r: Option<Color>)
    ensures
        r == color_named(s@),
{
    let t = trim_chars(s);
    let n = t.len();
    if n == 0 {
        return None;
    }
    let t = t.as_slice();
    proof {
        reveal_strlit("bright ");
        reveal_strlit("bold ");
        reveal_strlit("color");
        reveal_strlit("gray");
        reveal_strlit("rgb");
    }
    if has_prefix(t, chars_of("bright ").as_slice()) {
        let rest = slice_range(t, 7, n);
        match named_color_index(rest.as_slice()) {
            Some(i) => Some(Color::Indexed(i + 8)),
            None => None,
        }
    } else if has_prefix(t, chars_of("bold ").as_slice()) {
        let rest = slice_range(t, 5, n);
        match named_color_index(rest.as_slice()) {
            Some(i) => Some(Color::Indexed(i + 8)),
            None => None,
        }
    } else if has_prefix(t, chars_of("color").as_slice()) {
        let rest = slice_range(t, 5, n);
        match parse_unsigned_chars(rest.as_slice(), 255) {
            Some(v) => Some(Color::Indexed(v as u8)),
            None => None,
        }
    } else if has_prefix(t, chars_of("gray").as_slice()) {
        let rest = slice_range(t, 4, n);
        match parse_unsigned_chars(rest.as_slice(), 255) {
            Some(v) => if v <= 23 {
                Some(Color::Indexed(232 + v as u8))
            } else {
                None
            },
            None => None,
        }
    } else if has_prefix(t, chars_of("rgb").as_slice()) {
        let rest = slice_range(t, 3, n);
        if rest.len() >= 3 {
            match (base6_of(rest[0]), base6_of(rest[1]), base6_of(rest[2])) {
                (Some(r), Some(g), Some(b)) => Some(Color::Indexed(16 + r * 36 + g * 6 + b)),
                _ => None,
            }
        } else {
            None
        }
    } else {
        match named_color_index(t) {
            Some(i) => Some(Color::Indexed(i)),
            None => None,
        }
    }
}


/// `s` in lower case: its ASCII letters lowered where the text is known to be
/// ASCII, else as `str::to_lowercase` lowers it.
pub open spec fn lower_of(s: Seq<char>, ascii: bool) -> Seq<char> {
    if ascii {
        ascii_lower(s)
    } else {
        lowercase(s)
    }
}

/// Lowering `line` keeps each character's place and UTF-8 length, so that
/// positions found in the lowered text are positions in `line`.
pub open spec fn lowering_aligned(line: Seq<char>) -> bool {
    let lower = lowercase(line);
    &&& lower.len() == line.len()
    &&& forall|i: int| 0 <= i < line.len() ==> utf8_len(#[trigger] lower[i]) == utf8_len(line[i])
}

/// The foreground and background parts of a color setting: `on BG`, `FG on
/// BG` (the first ` on `, found ignoring case), or `FG`.
pub open spec fn fg_bg(line: Seq<char>, ascii: bool) -> (Seq<char>, Seq<char>) {
    let lower = lower_of(line, ascii);
    if starts_with(lower, "on "@) {
        (Seq::empty(), line.subrange(3, line.len() as int))
    } else {
        match find(lower, " on "@) {
            Some(pos) => (line.subrange(0, pos), line.subrange(pos + 4, line.len() as int)),
            None => (line, Seq::empty()),
        }
    }
}

/// The attributes that the foreground part names: bold, underline, inverse,
/// italic, strikethrough.
pub open spec fn modifier_bits(fg: Seq<char>) -> Modifier {
    ((if contains(fg, "bold"@) { BOLD } else { 0 }) + (if contains(fg, "underline"@) { UNDERLINED } else { 0 }) + (
    if contains(fg, "inverse"@) { REVERSED } else { 0 }) + (if contains(fg, "italic"@) { ITALIC } else { 0 }) + (
    if contains(fg, "strikethrough"@) { CROSSED_OUT } else { 0 })) as Modifier
}

/// A word that names an attribute rather than a color.
pub open spec fn is_modifier_word(w: Seq<char>, ascii: bool) -> bool {
    let l = lower_of(w, ascii);
    l == "bold"@ || l == "underline"@ || l == "inverse"@ || l == "italic"@ || l == "strikethrough"@
}

/// The words of `ws` that are not attribute names.
pub open spec fn color_words(ws: Seq<Seq<char>>, ascii: bool) -> Seq<Seq<char>>
    decreases ws.len(),
{
    if ws.len() == 0 {
        Seq::empty()
    } else {
        let prev = color_words(ws.drop_last(), ascii);
        if is_modifier_word(ws.last(), ascii) {
            prev
        } else {
            prev.push(ws.last())
        }
    }
}

/// The setting with `grey` written `gray`, trimmed.
pub open spec fn normalized(line: Seq<char>) -> Seq<char> {
    trim(replace_all(line, "grey"@, "gray"@))
}

/// The foreground color name of a setting.
pub open spec fn fg_name(line: Seq<char>, ascii: bool) -> Seq<char> {
    trim(join(color_words(words(fg_bg(normalized(line), ascii).0), ascii), ' '))
}

/// The background color name of a setting, without `bright `.
pub open spec fn bg_name(line: Seq<char>, ascii: bool) -> Seq<char> {
    trim(strip_all_prefix(fg_bg(normalized(line), ascii).1, "bright "@))
}

/// The background is bright.
pub open spec fn bg_bright(line: Seq<char>, ascii: bool) -> bool {
    starts_with(trim_start(fg_bg(normalized(line), ascii).1), "bright "@)
}

/// The background color: a bright plain name is 8 to 15, anything else is
/// read as a color name.
pub open spec fn bg_color_named(s: Seq<char>, bright: bool) -> Option<Color> {
    if bright && named_index(s) is Some {
        Some(Color::Indexed((named_index(s)->0 + 8) as u8))
    } else {
        color_named(s)
    }
}


/// The style that a taskwarrior color setting gives (`bold red on bright
/// blue`): nothing when a color name is unknown, or when lowering a setting
/// that is not ASCII moves its characters or changes their UTF-8 lengths
/// (the positions found in the lowered text would then not be positions of
/// the setting).
pub open spec fn style_of(line: Seq<char>) -> Option<Style> {
    let ascii = is_ascii_text(line);
    if !ascii && !lowering_aligned(normalized(line)) {
        None
    } else {
        let fg = fg_name(line, ascii);
        let bg = bg_name(line, ascii);
        let fgc = if fg.len() == 0 { Some(None::<Color>) } else {
            match color_named(fg) {
                Some(c) => Some(Some(c)),
                None => None,
            }
        };
        let bgc = if bg.len() == 0 { Some(None::<Color>) } else {
            match bg_color_named(bg, bg_bright(line, ascii)) {
                Some(c) => Some(Some(c)),
                None => None,
            }
        };
        match (fgc, bgc) {
            (Some(f), Some(b)) => Some(
                Style { fg: f, bg: b, add_modifier: modifier_bits(fg_bg(normalized(line), ascii).0), sub_modifier: 0 },
            ),
            _ => None,
        }
    }
}

fn lower_chars(s: &[char], ascii: bool) -> (r: Vec<char>)
    ensures
        r@ == lower_of(s@, ascii),
{
    if ascii {
        ascii_lower_chars(s)
    } else {
        let t = string_of(s);
        let l = str_to_lowercase(t.as_str());
        chars_of(l.as_str())
    }
}

fn is_modifier_word_of(w: &[char], ascii: bool) -> (r: bool)
    ensures
        r == is_modifier_word(w@, ascii),
{
    let l = lower_chars(w, ascii);
    let l = l.as_slice();
    chars_eq_str(l, "bold") || chars_eq_str(l, "underline") || chars_eq_str(l, "inverse") || chars_eq_str(
        l,
        "italic",
    ) || chars_eq_str(l, "strikethrough")
}

fn split_fg_bg(line: &[char], ascii: bool) -> (r: (Vec<char>, Vec<char>))
    requires
        !ascii ==> lowercase(line@).len() == line@.len(),
    ensures
        r.0@ == fg_bg(line@, ascii).0,
        r.1@ == fg_bg(line@, ascii).1,
{
    let lower = lower_chars(line, ascii);
    let n = line.len();
    proof {
        reveal_strlit("on ");
        reveal_strlit(" on ");
    }
    assert(lower@.len() == line@.len());
    if has_prefix(lower.as_slice(), chars_of("on ").as_slice()) {
        (Vec::new(), slice_range(line, 3, n))
    } else {
        match find_chars(lower.as_slice(), chars_of(" on ").as_slice()) {
            Some(pos) => (slice_range(line, 0, pos), slice_range(line, pos + 4, n)),
            None => (slice_range(line, 0, n), Vec::new()),
        }
    }
}

fn parse_color_bg(s: &[char], bright: bool) -> (r: Option<Color>)
    ensures
        r == bg_color_named(s@, bright),
{
    if bright {
        if let Some(i) = named_color_index(s) {
            return Some(Color::Indexed(i + 8));
        }
    }
    parse_color(s)
}

/// The parts of a color setting: the foreground part with its modifier
/// words, the foreground and background color names, and whether the
/// background is bright.
fn color_parts(l0: &[char], ascii: bool) -> (r: Option<(Vec<char>, Vec<char>, Vec<char>, bool)>)
    requires
        ascii == is_ascii_text(l0@),
    ensures
        match r {
            Some(p) => {
                &&& ascii || lowering_aligned(normalized(l0@))
                &&& p.0@ == fg_bg(normalized(l0@), ascii).0
                &&& p.1@ == fg_name(l0@, ascii)
                &&& p.2@ == bg_name(l0@, ascii)
                &&& p.3 == bg_bright(l0@, ascii)
            },
            None => !ascii && !lowering_aligned(normalized(l0@)),
        },
{
    let grey = chars_of("grey");
    let gray = chars_of("gray");
    proof {
        reveal_strlit("grey");
    }
    let l1 = replace_all_chars(l0, grey.as_slice(), gray.as_slice());
    let l2 = trim_chars(l1.as_slice());
    if !ascii {
        let low = lower_chars(l2.as_slice(), false);
        if low.len() != l2.len() {
            return None;
        }
        let mut k: usize = 0;
        while k < l2.len()
            invariant
                !ascii,
                l2@ == normalized(l0@),
                low@ == lowercase(l2@),
                low@.len() == l2@.len(),
                k <= l2@.len(),
                forall|j: int| 0 <= j < k ==> utf8_len(#[trigger] low@[j]) == utf8_len(l2@[j]),
            decreases l2.len() - k,
        {
            if char_utf8_len(low[k]) != char_utf8_len(l2[k]) {
                return None;
            }
            k += 1;
        }
    }
    let (fg_raw, bg_raw) = split_fg_bg(l2.as_slice(), ascii);
    let ws = words_chars(fg_raw.as_slice());
    let mut kept: Vec<Vec<char>> = Vec::new();
    let mut i: usize = 0;
    let ghost wv = words(fg_raw@);
    assert(wv.take(0) =~= Seq::<Seq<char>>::empty());
    while i < ws.len()
        invariant
            i <= ws@.len(),
            ws@.len() == wv.len(),
            forall|k: int| 0 <= k < ws@.len() ==> #[trigger] ws@[k]@ == wv[k],
            char_vecs(kept@) == color_words(wv.take(i as int), ascii),
        decreases ws.len() - i,
    {
        let ghost before = char_vecs(kept@);
        proof {
            assert(wv.take(i + 1).drop_last() =~= wv.take(i as int));
            assert(wv.take(i + 1).last() == wv[i as int]);
        }
        if !is_modifier_word_of(ws[i].as_slice(), ascii) {
            let piece = slice_range(ws[i].as_slice(), 0, ws[i].len());
            assert(piece@ =~= wv[i as int]);
            kept.push(piece);
            assert(char_vecs(kept@) =~= before.push(wv[i as int]));
        }
        i += 1;
    }
    assert(wv.take(wv.len() as int) =~= wv);
    let joined = join_chars(&kept, ' ');
    let fg = trim_chars(joined.as_slice());
    let stripped = strip_all_prefix_chars(bg_raw.as_slice(), chars_of("bright ").as_slice());
    let bg = trim_chars(stripped.as_slice());
    let bs = trim_start_chars(bg_raw.as_slice());
    let bright = has_prefix(bs.as_slice(), chars_of("bright ").as_slice());
    Some((fg_raw, fg, bg, bright))
}

/// Whether the interface can read the output `data` of `task show`: the
/// settings it needs are there.
pub fn config_is_readable(data: &str) -> (r: bool)
    ensures
        r == config_readable(data@),
{
    Config::get_config("rule.precedence.color", data).is_some() && Config::get_config("uda.priority.values", data).is_some()
        && Config::get_config("data.location", data).is_some()
}

impl Config {
/// The style that a taskwarrior color setting gives, if its colors are known.
pub fn parse_tcolor(line: &str) -> (r: Option<Style>)
    ensures
        r == style_of(line@),
{
    let l0 = chars_of(line);
    let ascii = all_ascii(l0.as_slice());
    let (fg_raw, fg, bg, bright) = match color_parts(l0.as_slice(), ascii) {
        Some(p) => p,
        None => {
            return None;
        },
    };
    let mut bits: u16 = 0;
    if contains_chars(fg_raw.as_slice(), chars_of("bold").as_slice()) {
        bits = bits + BOLD;
    }
    if contains_chars(fg_raw.as_slice(), chars_of("underline").as_slice()) {
        bits = bits + UNDERLINED;
    }
    if contains_chars(fg_raw.as_slice(), chars_of("inverse").as_slice()) {
        bits = bits + REVERSED;
    }
    if contains_chars(fg_raw.as_slice(), chars_of("italic").as_slice()) {
        bits = bits + ITALIC;
    }
    if contains_chars(fg_raw.as_slice(), chars_of("strikethrough").as_slice()) {
        bits = bits + CROSSED_OUT;
    }
    assert(bits == modifier_bits(fg_raw@));
    let fgc = if fg.len() == 0 {
        None
    } else {
        match parse_color(fg.as_slice()) {
            Some(c) => Some(c),
            None => {
                return None;
            },
        }
    };
    let bgc = if bg.len() == 0 {
        None
    } else {
        match parse_color_bg(bg.as_slice(), bright) {
            Some(c) => Some(c),
            None => {
                return None;
            },
        }
    };
    Some(Style { fg: fgc, bg: bgc, add_modifier: bits, sub_modifier: 0 })
}

/// The style of a color setting: the style it names, or the plain style.
pub fn get_tcolor(line: &str) -> (r: Style)
    ensures
        r == match style_of(line@) {
            Some(st) => st,
            None => crate::color::plain_style(),
        },
{
    match Self::parse_tcolor(line) {
        Some(st) => st,
        None => Style::new(),
    }
}
}


/// The style of a color setting, or the plain style where a color is unknown.
pub open spec fn tcolor_or_plain(line: Seq<char>) -> Style {
    match style_of(line) {
        Some(st) => st,
        None => crate::color::plain_style(),
    }
}

/// The first space of `line`, from `d` on, after which a readable color
/// setting follows.
pub open spec fn color_split_from(line: Seq<char>, d: int) -> Option<int>
    decreases line.len() - d,
{
    if d < 0 || d >= line.len() {
        None
    } else if line[d] == ' ' && style_of(trim_start(line.subrange(d, line.len() as int))) is Some {
        Some(d)
    } else {
        color_split_from(line, d + 1)
    }
}

/// Where the name of a color line ends: at the first run of two spaces (the
/// columns of `task show`), else at the first space after which a readable
/// color setting follows.
pub open spec fn color_delimiter(line: Seq<char>) -> Option<int> {
    match find(line, "  "@) {
        Some(p) => Some(p),
        None => color_split_from(line, 0),
    }
}

/// The name and style that a line of `task show` gives, if it is a color line.
pub open spec fn color_entry(line: Seq<char>) -> Option<(Seq<char>, Style)> {
    if !starts_with(line, "color."@) {
        None
    } else {
        match color_delimiter(line) {
            Some(d) => Some(
                (
                    trim_end(line.subrange(0, d)),
                    tcolor_or_plain(trim_start(line.subrange(d, line.len() as int))),
                ),
            ),
            None => Some((trim_end(line), crate::color::plain_style())),
        }
    }
}



/// The colors that the lines set, a later line overriding an earlier one.
pub open spec fn color_map(lines: Seq<Seq<char>>) -> Map<Seq<char>, Style>
    decreases lines.len(),
{
    if lines.len() == 0 {
        Map::empty()
    } else {
        let prev = color_map(lines.drop_last());
        match color_entry(lines.last()) {
            Some(e) => prev.insert(e.0, e.1),
            None => prev,
        }
    }
}

/// The style that `m` gives `key`, if any.
pub open spec fn entry_of(m: Map<Seq<char>, Style>, key: Seq<char>) -> Option<Style> {
    if m.dom().contains(key) {
        Some(m[key])
    } else {
        None
    }
}

/// A style given to a key is the style read back for it, and giving a style
/// to one key leaves every other key as it was.
pub proof fn law_color_read_after_write(m: Map<Seq<char>, Style>, key: Seq<char>, style: Style, other: Seq<char>)
    ensures
        entry_of(m.insert(key, style), key) == Some(style),
        other != key ==> entry_of(m.insert(key, style), other) == entry_of(m, other),
{
}

/// Styles by name, each name once.
pub struct ColorTable {
    entries: Vec<(String, Style)>,
}

impl View for ColorTable {
    type V = Map<Seq<char>, Style>;

    closed spec fn view(&self) -> Map<Seq<char>, Style> {
        table_map(self.entries@)
    }
}

/// The styles of entries by name.
pub closed spec fn table_map(e: Seq<(String, Style)>) -> Map<Seq<char>, Style> {
    Map::new(
        |k: Seq<char>| exists|i: int| 0 <= i < e.len() && #[trigger] e[i].0@ == k,
        |k: Seq<char>| e[choose|i: int| 0 <= i < e.len() && #[trigger] e[i].0@ == k].1,
    )
}

/// No name occurs twice among the entries.
pub closed spec fn names_unique(e: Seq<(String, Style)>) -> bool {
    forall|i: int, j: int| 0 <= i < j < e.len() ==> #[trigger] e[i].0@ != #[trigger] e[j].0@
}

proof fn lemma_table_value(e: Seq<(String, Style)>, i: int)
    requires
        names_unique(e),
        0 <= i < e.len(),
    ensures
        table_map(e).dom().contains(e[i].0@),
        table_map(e)[e[i].0@] == e[i].1,
{
    let k = e[i].0@;
    assert(table_map(e).dom().contains(k));
    let c = choose|c: int| 0 <= c < e.len() && #[trigger] e[c].0@ == k;
    if c < i {
        assert(e[c].0@ != e[i].0@);
    } else if i < c {
        assert(e[i].0@ != e[c].0@);
    }
}

proof fn lemma_table_update(e: Seq<(String, Style)>, j: int, key: String, style: Style)
    requires
        names_unique(e),
        0 <= j < e.len(),
        e[j].0@ == key@,
    ensures
        names_unique(e.update(j, (key, style))),
        table_map(e.update(j, (key, style))) == table_map(e).insert(key@, style),
{
    let f = e.update(j, (key, style));
    assert(names_unique(f)) by {
        assert forall|a: int, b: int| 0 <= a < b < f.len() implies #[trigger] f[a].0@ != #[trigger] f[b].0@ by {
            assert(e[a].0@ != e[b].0@);
        }
    }
    let m = table_map(e).insert(key@, style);
    assert forall|k: Seq<char>| table_map(f).dom().contains(k) <==> m.dom().contains(k) by {
        if table_map(f).dom().contains(k) {
            let i = choose|i: int| 0 <= i < f.len() && #[trigger] f[i].0@ == k;
            if i != j {
                assert(e[i].0@ == k);
            }
        }
        if table_map(e).dom().contains(k) {
            let i = choose|i: int| 0 <= i < e.len() && #[trigger] e[i].0@ == k;
            if i != j {
                assert(f[i].0@ == k);
            } else {
                assert(f[j].0@ == k);
            }
        }
        if k == key@ {
            assert(f[j].0@ == k);
        }
    }
    assert forall|k: Seq<char>| table_map(f).dom().contains(k) implies table_map(f)[k] == m[k] by {
        let i = choose|i: int| 0 <= i < f.len() && #[trigger] f[i].0@ == k;
        lemma_table_value(f, i);
        if i != j {
            assert(e[i] == f[i]);
            lemma_table_value(e, i);
        }
    }
    assert(table_map(f) =~= m);
}

proof fn lemma_table_push(e: Seq<(String, Style)>, key: String, style: Style)
    requires
        names_unique(e),
        forall|i: int| 0 <= i < e.len() ==> #[trigger] e[i].0@ != key@,
    ensures
        names_unique(e.push((key, style))),
        table_map(e.push((key, style))) == table_map(e).insert(key@, style),
{
    let f = e.push((key, style));
    let n = e.len() as int;
    assert(names_unique(f)) by {
        assert forall|a: int, b: int| 0 <= a < b < f.len() implies #[trigger] f[a].0@ != #[trigger] f[b].0@ by {
            if b < n {
                assert(e[a].0@ != e[b].0@);
            } else {
                assert(e[a].0@ != key@);
            }
        }
    }
    let m = table_map(e).insert(key@, style);
    assert forall|k: Seq<char>| table_map(f).dom().contains(k) <==> m.dom().contains(k) by {
        if table_map(f).dom().contains(k) {
            let i = choose|i: int| 0 <= i < f.len() && #[trigger] f[i].0@ == k;
            if i < n {
                assert(e[i].0@ == k);
            }
        }
        if table_map(e).dom().contains(k) {
            let i = choose|i: int| 0 <= i < e.len() && #[trigger] e[i].0@ == k;
            assert(f[i].0@ == k);
        }
        if k == key@ {
            assert(f[n].0@ == k);
        }
    }
    assert forall|k: Seq<char>| table_map(f).dom().contains(k) implies table_map(f)[k] == m[k] by {
        let i = choose|i: int| 0 <= i < f.len() && #[trigger] f[i].0@ == k;
        lemma_table_value(f, i);
        if i < n {
            assert(e[i] == f[i]);
            lemma_table_value(e, i);
        }
    }
    assert(table_map(f) =~= m);
}

impl ColorTable {
    #[verifier::type_invariant]
    spec fn names_distinct(self) -> bool {
        names_unique(self.entries@)
    }

    /// The table without entries.
    pub fn new() -> (r: Self)
        ensures
            r@ == Map::<Seq<char>, Style>::empty(),
    {
        let r = ColorTable { entries: Vec::new() };
        assert(r@ =~= Map::<Seq<char>, Style>::empty());
        r
    }

    /// The number of names.
    pub fn len(&self) -> (r: usize)
        ensures
            r == self@.dom().len(),
    {
        proof {
            use_type_invariant(self);
            self.lemma_dom_len();
        }
        self.entries.len()
    }

    proof fn lemma_dom_len(&self)
        requires
            self.names_distinct(),
        ensures
            self@.dom().len() == self.entries@.len(),
            self@.dom().finite(),
    {
        let names = self.entries@.map_values(|e: (String, Style)| e.0@);
        assert(names.no_duplicates()) by {
            assert forall|i: int, j: int| 0 <= i < names.len() && 0 <= j < names.len() && i != j implies names[i]
                != names[j] by {
                if i < j {
                    assert(self.entries@[i].0@ != self.entries@[j].0@);
                } else {
                    assert(self.entries@[j].0@ != self.entries@[i].0@);
                }
            }
        }
        assert(self@.dom() =~= names.to_set()) by {
            assert forall|k: Seq<char>| self@.dom().contains(k) implies names.to_set().contains(k) by {
                let i = choose|i: int| 0 <= i < self.entries@.len() && #[trigger] self.entries@[i].0@ == k;
                assert(names[i] == k);
            }
            assert forall|k: Seq<char>| names.to_set().contains(k) implies self@.dom().contains(k) by {
                let i = choose|i: int| 0 <= i < names.len() && names[i] == k;
                assert(self.entries@[i].0@ == k);
            }
        }
        names.unique_seq_to_set();
    }

    fn index_of(&self, key: &[char]) -> (r: Option<usize>)
        ensures
            r matches Some(j) ==> j < self.entries@.len() && self.entries@[j as int].0@ == key@,
            r is None ==> forall|i: int| 0 <= i < self.entries@.len() ==> #[trigger] self.entries@[i].0@ != key@,
    {
        let mut i: usize = 0;
        while i < self.entries.len()
            invariant
                i <= self.entries@.len(),
                forall|q: int| 0 <= q < i ==> #[trigger] self.entries@[q].0@ != key@,
            decreases self.entries.len() - i,
        {
            let name = chars_of(self.entries[i].0.as_str());
            if chars_eq(name.as_slice(), key) {
                return Some(i);
            }
            i += 1;
        }
        None
    }

    /// The style of `key`, if it has one.
    pub fn get(&self, key: &str) -> (r: Option<Style>)
        ensures
            r == entry_of(self@, key@),
    {
        proof {
            use_type_invariant(self);
        }
        let k = chars_of(key);
        match self.index_of(k.as_slice()) {
            Some(j) => {
                assert(self.entries@[j as int].0@ == key@);
                assert(self@.dom().contains(key@));
                Some(self.entries[j].1)
            },
            None => {
                assert(!self@.dom().contains(key@));
                None
            },
        }
    }

    /// Give `key` the style `style`, in place of any it had.
    pub fn insert(&mut self, key: String, style: Style)
        ensures
            final(self)@ == old(self)@.insert(key@, style),
    {
        proof {
            use_type_invariant(&*self);
        }
        let ghost before = *self;
        let k = chars_of(key.as_str());
        let found = self.index_of(k.as_slice());
        let mut v: Vec<(String, Style)> = Vec::new();
        std::mem::swap(&mut v, &mut self.entries);
        assert(v@ == before.entries@);
        match found {
            Some(j) => {
                proof {
                    lemma_table_update(v@, j as int, key, style);
                }
                v.set(j, (key, style));
            },
            None => {
                proof {
                    lemma_table_push(v@, key, style);
                }
                v.push((key, style));
            },
        }
        self.entries = v;
    }

    /// The entries whose names begin with `prefix`, the prefix taken off.
    pub fn with_prefix(&self, prefix: &str) -> (r: Vec<(String, Style)>)
        ensures
            forall|i: int| 0 <= i < r@.len() ==> #[trigger] entry_of(self@, prefix@ + r@[i].0@) == Some(r@[i].1),
            forall|k: Seq<char>| #[trigger] self@.dom().contains(prefix@ + k) ==> exists|i: int| 0 <= i < r@.len() && r@[i].0@ == k,
            forall|i: int, j: int| 0 <= i < j < r@.len() ==> #[trigger] r@[i].0@ != #[trigger] r@[j].0@,
    {
        proof {
            use_type_invariant(self);
        }
        let p = chars_of(prefix);
        let np = p.len();
        let mut r: Vec<(String, Style)> = Vec::new();
        let mut i: usize = 0;
        while i < self.entries.len()
            invariant
                i <= self.entries@.len(),
                np == prefix@.len(),
                p@ == prefix@,
                self.names_distinct(),
                forall|q: int| 0 <= q < r@.len() ==> #[trigger] entry_of(self@, prefix@ + r@[q].0@) == Some(r@[q].1),
                forall|q: int| 0 <= q < r@.len() ==> exists|e: int| 0 <= e < i && #[trigger] self.entries@[e].0@ == prefix@ + #[trigger] r@[q].0@,
                forall|e: int| 0 <= e < i && starts_with(#[trigger] self.entries@[e].0@, prefix@) ==> exists|q: int| 0 <= q < r@.len() && r@[q].0@ == self.entries@[e].0@.subrange(prefix@.len() as int, self.entries@[e].0@.len() as int),
                forall|a: int, b: int| 0 <= a < b < r@.len() ==> #[trigger] r@[a].0@ != #[trigger] r@[b].0@,
            decreases self.entries.len() - i,
        {
            let name = chars_of(self.entries[i].0.as_str());
            if has_prefix(name.as_slice(), p.as_slice()) {
                let rest = slice_range(name.as_slice(), np, name.len());
                let ghost k = rest@;
                assert(prefix@ + k =~= self.entries@[i as int].0@);
                assert(self@.dom().contains(prefix@ + k));
                proof {
                    assert forall|q: int| 0 <= q < r@.len() implies r@[q].0@ != k by {
                        let e = choose|e: int| 0 <= e < i && #[trigger] self.entries@[e].0@ == prefix@ + #[trigger] r@[q].0@;
                        if r@[q].0@ == k {
                            assert(self.entries@[e].0@ == self.entries@[i as int].0@);
                        }
                    }
                }
                let ghost old_r = r@;
                r.push((string_of(rest.as_slice()), self.entries[i].1));
                proof {
                    assert(r@[old_r.len() as int].0@ == k);
                    assert forall|e: int| 0 <= e < i + 1 && starts_with(#[trigger] self.entries@[e].0@, prefix@) implies exists|q: int| 0 <= q < r@.len() && r@[q].0@ == self.entries@[e].0@.subrange(prefix@.len() as int, self.entries@[e].0@.len() as int) by {
                        if e == i {
                            assert(r@[old_r.len() as int].0@ == self.entries@[e].0@.subrange(prefix@.len() as int, self.entries@[e].0@.len() as int));
                        } else {
                            let q = choose|q: int| 0 <= q < old_r.len() && old_r[q].0@ == self.entries@[e].0@.subrange(prefix@.len() as int, self.entries@[e].0@.len() as int);
                            assert(r@[q] == old_r[q]);
                        }
                    }
                    assert forall|q: int| 0 <= q < r@.len() implies exists|e: int| 0 <= e < i + 1 && #[trigger] self.entries@[e].0@ == prefix@ + #[trigger] r@[q].0@ by {
                        if q < old_r.len() {
                            assert(r@[q] == old_r[q]);
                        } else {
                            assert(self.entries@[i as int].0@ == prefix@ + r@[q].0@);
                        }
                    }
                }
            } else {
                proof {
                    assert forall|e: int| 0 <= e < i + 1 && starts_with(#[trigger] self.entries@[e].0@, prefix@) implies exists|q: int| 0 <= q < r@.len() && r@[q].0@ == self.entries@[e].0@.subrange(prefix@.len() as int, self.entries@[e].0@.len() as int) by {
                        if e == i {
                            assert(name@ == self.entries@[e].0@);
                        }
                    }
                }
            }
            i += 1;
        }
        proof {
            assert forall|k: Seq<char>| #[trigger] self@.dom().contains(prefix@ + k) implies exists|q: int| 0 <= q < r@.len() && r@[q].0@ == k by {
                let e = choose|e: int| 0 <= e < self.entries@.len() && #[trigger] self.entries@[e].0@ == prefix@ + k;
                assert(self.entries@[e].0@.subrange(0, prefix@.len() as int) =~= prefix@);
                assert(self.entries@[e].0@.subrange(prefix@.len() as int, self.entries@[e].0@.len() as int) =~= k);
            }
        }
        r
    }
}

fn color_delimiter_of(line: &[char]) -> (r: Option<usize>)
    ensures
        r matches Some(d) ==> color_delimiter(line@) == Some(d as int) && d < line@.len() && line@[d as int] == ' ',
        r is None ==> color_delimiter(line@) is None,
{
    proof {
        reveal_strlit("  ");
    }
    let two = chars_of("  ");
    match find_chars(line, two.as_slice()) {
        Some(p) => {
            assert(line@[p as int] == two@[0]);
            return Some(p);
        },
        None => {},
    }
    let n = line.len();
    let mut d: usize = 0;
    while d < n
        invariant
            d <= n,
            n == line@.len(),
            two@ == "  "@,
            find(line@, two@) is None,
            color_split_from(line@, 0) == color_split_from(line@, d as int),
        decreases n - d,
    {
        if line[d] == ' ' {
            let rest = slice_range(line, d, n);
            let t = trim_start_chars(rest.as_slice());
            let s = string_of(t.as_slice());
            if Config::parse_tcolor(s.as_str()).is_some() {
                assert(s@ == trim_start(line@.subrange(d as int, n as int)));
                assert(color_split_from(line@, d as int) == Some(d as int));
                return Some(d);
            }
        }
        d += 1;
    }
    None
}

impl Config {
    /// The name and style that a line of `task show` gives, if it is a color
    /// line.
    pub fn parse_color_config(line: &str) -> (r: Option<(String, Style)>)
        ensures
            match color_entry(line@) {
                Some(e) => r matches Some(x) && x.0@ == e.0 && x.1 == e.1,
                None => r is None,
            },
    {
        let l = chars_of(line);
        if !has_prefix(l.as_slice(), chars_of("color.").as_slice()) {
            return None;
        }
        let n = l.len();
        match color_delimiter_of(l.as_slice()) {
            Some(d) => {
                let name = trim_end_chars(slice_range(l.as_slice(), 0, d).as_slice());
                let value = trim_start_chars(slice_range(l.as_slice(), d, n).as_slice());
                let vs = string_of(value.as_slice());
                Some((string_of(name.as_slice()), Self::get_tcolor(vs.as_str())))
            },
            None => {
                let name = trim_end_chars(l.as_slice());
                Some((string_of(name.as_slice()), Style::new()))
            },
        }
    }

    /// The colors that the color lines of `data` set.
    pub fn get_color_collection(data: &str) -> (r: ColorTable)
        ensures
            r@ == color_map(split_char(data@, '\n')),
    {
        let d = chars_of(data);
        let lines = split_chars(d.as_slice(), '\n');
        let ghost ls = split_char(data@, '\n');
        let mut table = ColorTable::new();
        let mut i: usize = 0;
        assert(ls.take(0) =~= Seq::<Seq<char>>::empty());
        while i < lines.len()
            invariant
                i <= lines@.len(),
                lines@.len() == ls.len(),
                ls == split_char(data@, '\n'),
                forall|q: int| 0 <= q < lines@.len() ==> #[trigger] lines@[q]@ == ls[q],
                table@ == color_map(ls.take(i as int)),
            decreases lines.len() - i,
        {
            assert(ls.take(i + 1).drop_last() =~= ls.take(i as int));
            assert(ls.take(i + 1).last() == ls[i as int]);
            let line = string_of(lines[i].as_slice());
            match Self::parse_color_config(line.as_str()) {
                Some((name, style)) => {
                    table.insert(name, style);
                },
                None => {},
            }
            i += 1;
        }
        assert(ls.take(ls.len() as int) =~= ls);
        table
    }
}


/// The value of setting `key`, or nothing written.
pub open spec fn value_or_empty(key: Seq<char>, data: Seq<char>) -> Seq<char> {
    match config_value(key, data) {
        Some(v) => v,
        None => Seq::empty(),
    }
}

/// A yes-or-no setting: what its value says, or `default`.
pub open spec fn setting_bool(key: Seq<char>, data: Seq<char>, default: bool) -> bool {
    match bool_of(value_or_empty(key, data)) {
        Some(b) => b,
        None => default,
    }
}

/// A number setting: its value if it reads as a number up to `max`, or
/// `default`.
pub open spec fn setting_number(key: Seq<char>, data: Seq<char>, max: nat, default: nat) -> nat {
    match parse_unsigned(value_or_empty(key, data), max) {
        Some(n) => n,
        None => default,
    }
}

/// An indicator setting: its value followed by a space, or `default`.
pub open spec fn indicator_setting(key: Seq<char>, data: Seq<char>, default: Seq<char>) -> Seq<char> {
    match config_value(key, data) {
        Some(v) => v.push(' '),
        None => default,
    }
}

/// A one-character setting: the first character of its value, or `default`.
pub open spec fn first_char_setting(key: Seq<char>, data: Seq<char>, default: char) -> Seq<char> {
    match config_value(key, data) {
        Some(v) => if v.len() > 0 {
            seq![v[0]]
        } else {
            seq![default]
        },
        None => seq![default],
    }
}

/// The setting that holds the style of `name`.
pub open spec fn uda_style_key(name: Seq<char>) -> Seq<char> {
    "uda.taskwarrior-tui.style."@ + name
}

/// The style that the setting of `name` gives, if it is set.
pub open spec fn uda_style(name: Seq<char>, data: Seq<char>) -> Option<Style> {
    match config_value(uda_style_key(name), data) {
        Some(v) => Some(tcolor_or_plain(v)),
        None => None,
    }
}

/// The style that the setting of `name` gives, or `default`.
pub open spec fn uda_style_or(name: Seq<char>, data: Seq<char>, default: Style) -> Style {
    match uda_style(name, data) {
        Some(st) => st,
        None => default,
    }
}


/// Only a foreground color.
pub open spec fn fg_style(c: Color) -> Style {
    Style { fg: Some(c), bg: None, add_modifier: 0, sub_modifier: 0 }
}

/// Only added attributes.
pub open spec fn modifier_style(m: Modifier) -> Style {
    Style { fg: None, bg: None, add_modifier: m, sub_modifier: 0 }
}

/// Black on light grey.
pub open spec fn completion_pane_style() -> Style {
    Style { fg: Some(Color::Black), bg: Some(Color::Rgb(223, 223, 223)), add_modifier: 0, sub_modifier: 0 }
}

/// The setting of shortcut `i`.
pub open spec fn shortcut_key(i: nat) -> Seq<char> {
    "uda.taskwarrior-tui.shortcuts."@ + decimal_of(i)
}

/// The filter of `report`: none for `all`, else the interface's own filter
/// setting for it, else the report's filter, else nothing.
pub open spec fn filter_of(data: Seq<char>, report: Seq<char>) -> Seq<char> {
    if report == "all"@ {
        Seq::empty()
    } else {
        match config_value("uda.taskwarrior-tui.task-report."@ + report + ".filter"@, data) {
            Some(v) => v,
            None => value_or_empty("report."@ + report + ".filter"@, data),
        }
    }
}

/// The filter that the interface puts in front of what is typed: the
/// report's filter, followed by a space unless it is blank.
pub open spec fn filter_prefix(data: Seq<char>, report: Seq<char>) -> Seq<char> {
    let f = filter_of(data, report);
    if trim(f).len() == 0 {
        f
    } else {
        f.push(' ')
    }
}

/// The names and styles of the color lines named `color.keyword.NAME`.
pub open spec fn keyword_colors(m: Map<Seq<char>, Style>, kws: Seq<(String, Style)>) -> bool {
    &&& forall|i: int| 0 <= i < kws.len() ==> #[trigger] entry_of(m, "color.keyword."@ + kws[i].0@) == Some(kws[i].1)
    &&& forall|k: Seq<char>| #[trigger] m.dom().contains("color.keyword."@ + k) ==> exists|i: int| 0 <= i < kws.len() && kws[i].0@ == k
    &&& forall|i: int, j: int| 0 <= i < j < kws.len() ==> #[trigger] kws[i].0@ != #[trigger] kws[j].0@
}

/// What the settings of `data` must hold to be read: the settings that the
/// interface cannot do without.
pub open spec fn config_readable(data: Seq<char>) -> bool {
    &&& config_value("rule.precedence.color"@, data) is Some
    &&& config_value("uda.priority.values"@, data) is Some
    &&& config_value("data.location"@, data) is Some
}

/// The settings of the interface, read from `task show`.
pub struct Config {
    pub enabled: bool,
    pub color: ColorTable,
    pub color_keywords: Vec<(String, Style)>,
    pub filter: String,
    pub data_location: String,
    pub obfuscate: bool,
    pub print_empty_columns: bool,
    pub due: usize,
    pub weekstart: bool,
    pub rule_precedence_color: Vec<String>,
    pub uda_priority_values: Vec<String>,
    pub uda_tick_rate: u64,
    pub uda_change_focus_rotate: bool,
    pub uda_auto_insert_double_quotes_on_add: bool,
    pub uda_auto_insert_double_quotes_on_annotate: bool,
    pub uda_auto_insert_double_quotes_on_log: bool,
    pub uda_prefill_task_metadata: bool,
    pub uda_reset_filter_on_esc: bool,
    pub uda_task_report_use_all_tasks_for_completion: bool,
    pub uda_task_report_use_alternate_style: bool,
    pub uda_task_report_show_info: bool,
    pub uda_task_report_looping: bool,
    pub uda_task_report_jump_to_task_on_add: bool,
    pub uda_selection_bold: bool,
    pub uda_selection_italic: bool,
    pub uda_selection_dim: bool,
    pub uda_selection_blink: bool,
    pub uda_selection_reverse: bool,
    pub uda_task_report_prompt_on_undo: bool,
    pub uda_task_report_prompt_on_delete: bool,
    pub uda_task_report_prompt_on_done: bool,
    pub uda_task_report_date_time_vague_more_precise: bool,
    pub uda_context_menu_select_on_move: bool,
    pub uda_context_menu_close_on_select: bool,
    pub uda_report_menu_select_on_move: bool,
    pub uda_report_menu_close_on_select: bool,
    pub uda_task_detail_prefetch: usize,
    pub uda_calendar_months_per_row: usize,
    pub uda_background_process_period: usize,
    pub uda_selection_indicator: String,
    pub uda_mark_highlight_indicator: String,
    pub uda_unmark_highlight_indicator: String,
    pub uda_mark_indicator: String,
    pub uda_unmark_indicator: String,
    pub uda_scrollbar_indicator: String,
    pub uda_scrollbar_area: String,
    pub uda_style_report_selection: Style,
    pub uda_style_report_scrollbar: Style,
    pub uda_style_report_scrollbar_area: Style,
    pub uda_style_calendar_title: Style,
    pub uda_style_calendar_today: Style,
    pub uda_style_navbar: Style,
    pub uda_style_command: Style,
    pub uda_style_context_active: Style,
    pub uda_style_report_menu_active: Style,
    pub uda_style_report_completion_pane: Style,
    pub uda_style_report_completion_pane_highlight: Style,
    pub uda_style_title: Style,
    pub uda_style_title_border: Style,
    pub uda_style_help_gauge: Style,
    pub uda_style_command_error: Style,
    pub uda_shortcuts: Vec<String>,
    pub uda_background_process: String,
    pub uda_quick_tag_name: String,
    pub uda_tasklist_vertical: bool,
}

impl Config {
    fn value_of(key: &str, data: &str) -> (r: String)
        ensures
            r@ == value_or_empty(key@, data@),
    {
        match Self::get_config(key, data) {
            Some(v) => v,
            None => String::new(),
        }
    }

    fn bool_setting(key: &str, data: &str, default: bool) -> (r: bool)
        ensures
            r == setting_bool(key@, data@, default),
    {
        match Self::value_of(key, data).get_bool() {
            Some(b) => b,
            None => default,
        }
    }

    fn number_setting(key: &str, data: &str, max: u64, default: u64) -> (r: u64)
        requires
            default <= max,
        ensures
            r == setting_number(key@, data@, max as nat, default as nat),
    {
        let v = Self::value_of(key, data);
        match parse_unsigned_chars(chars_of(v.as_str()).as_slice(), max) {
            Some(n) => n,
            None => default,
        }
    }

    fn indicator(key: &str, data: &str, default: &str) -> (r: String)
        ensures
            r@ == indicator_setting(key@, data@, default@),
    {
        match Self::get_config(key, data) {
            Some(v) => {
                let mut c = chars_of(v.as_str());
                c.push(' ');
                string_of(c.as_slice())
            },
            None => string_of(chars_of(default).as_slice()),
        }
    }

    fn first_char(key: &str, data: &str, default: char) -> (r: String)
        ensures
            r@ == first_char_setting(key@, data@, default),
    {
        let c = match Self::get_config(key, data) {
            Some(v) => {
                let cv = chars_of(v.as_str());
                if cv.len() > 0 {
                    cv[0]
                } else {
                    default
                }
            },
            None => default,
        };
        let mut out: Vec<char> = Vec::new();
        out.push(c);
        string_of(out.as_slice())
    }

    /// The style that the setting of `name` gives, if it is set.
    pub fn get_uda_style(name: &str, data: &str) -> (r: Option<Style>)
        ensures
            r == uda_style(name@, data@),
    {
        let mut k = chars_of("uda.taskwarrior-tui.style.");
        push_str(&mut k, name);
        let key = string_of(k.as_slice());
        match Self::get_config(key.as_str(), data) {
            Some(v) => Some(Self::get_tcolor(v.as_str())),
            None => None,
        }
    }

    /// The filter of `report`: none for `all`, else the interface's own filter
    /// setting for it, else the report's filter, else nothing.
    pub fn get_filter(data: &str, report: &str) -> (r: Result<String, String>)
        ensures
            r matches Ok(f) && f@ == filter_of(data@, report@),
    {
        let rc = chars_of(report);
        if chars_eq_str(rc.as_slice(), "all") {
            return Ok(String::new());
        }
        let mut k1 = chars_of("uda.taskwarrior-tui.task-report.");
        push_str(&mut k1, report);
        push_str(&mut k1, ".filter");
        let key1 = string_of(k1.as_slice());
        match Self::get_config(key1.as_str(), data) {
            Some(v) => Ok(v),
            None => {
                let mut k2 = chars_of("report.");
                push_str(&mut k2, report);
                push_str(&mut k2, ".filter");
                let key2 = string_of(k2.as_slice());
                Ok(Self::value_of(key2.as_str(), data))
            },
        }
    }

    fn split_setting(key: &str, data: &str) -> (r: Vec<String>)
        requires
            config_value(key@, data@) is Some,
        ensures
            crate::pane::context::strings_view(r@) == split_char(config_value(key@, data@)->0, ','),
    {
        let v = Self::value_of(key, data);
        let parts = split_chars(chars_of(v.as_str()).as_slice(), ',');
        let mut r: Vec<String> = Vec::new();
        let mut i: usize = 0;
        while i < parts.len()
            invariant
                i <= parts@.len(),
                parts@.len() == split_char(v@, ',').len(),
                forall|k: int| 0 <= k < parts@.len() ==> #[trigger] parts@[k]@ == split_char(v@, ',')[k],
                crate::pane::context::strings_view(r@) == split_char(v@, ',').take(i as int),
            decreases parts.len() - i,
        {
            let ghost before = r@;
            let piece = string_of(parts[i].as_slice());
            r.push(piece);
            assert(crate::pane::context::strings_view(r@) =~= crate::pane::context::strings_view(before).push(piece@));
            assert(split_char(v@, ',').take(i + 1) =~= split_char(v@, ',').take(i as int).push(split_char(v@, ',')[i as int]));
            i += 1;
        }
        assert(split_char(v@, ',').take(parts@.len() as int) =~= split_char(v@, ','));
        r
    }

    /// The shortcut commands, from shortcut 0 to shortcut 9.
    pub fn get_uda_shortcuts(data: &str) -> (r: Vec<String>)
        ensures
            r@.len() == 10,
            forall|i: int| 0 <= i < 10 ==> #[trigger] r@[i]@ == value_or_empty(shortcut_key(i as nat), data@),
    {
        let mut r: Vec<String> = Vec::new();
        let mut i: u64 = 0;
        while i < 10
            invariant
                i <= 10,
                r@.len() == i,
                forall|q: int| 0 <= q < i ==> #[trigger] r@[q]@ == value_or_empty(shortcut_key(q as nat), data@),
            decreases 10 - i,
        {
            let mut k = chars_of("uda.taskwarrior-tui.shortcuts.");
            let d = decimal_chars(i);
            push_all(&mut k, d.as_slice());
            let key = string_of(k.as_slice());
            r.push(Self::value_of(key.as_str(), data));
            i += 1;
        }
        r
    }

    /// Monday begins the week when the setting says so, in any case.
    pub fn get_weekstart(data: &str) -> (r: bool)
        ensures
            r == (ascii_lower(value_or_empty("weekstart"@, data@)) == "monday"@),
    {
        let v = Self::value_of("weekstart", data);
        let l = ascii_lower_chars(chars_of(v.as_str()).as_slice());
        chars_eq_str(l.as_slice(), "monday")
    }

    /// The tag that the quick-tag key toggles: `next` unless set.
    pub fn get_uda_quick_tag_name(data: &str) -> (r: String)
        ensures
            r@ == match config_value("uda.taskwarrior-tui.quick-tag.name"@, data@) {
                Some(v) => v,
                None => "next"@,
            },
    {
        match Self::get_config("uda.taskwarrior-tui.quick-tag.name", data) {
            Some(v) => v,
            None => string_of(chars_of("next").as_slice()),
        }
    }

    /// The task list is drawn above the details unless set otherwise; by
    /// default only on terminals at most 160 columns wide.
    pub fn get_uda_tasklist_vertical(data: &str, terminal_width: u16) -> (r: bool)
        ensures
            r == setting_bool("uda.taskwarrior-tui.tasklist.vertical"@, data@, terminal_width <= 160),
    {
        Self::bool_setting("uda.taskwarrior-tui.tasklist.vertical", data, terminal_width <= 160)
    }

    /// Setting `uda.taskwarrior-tui.tabs.change-focus-rotate`, `false` unless set.
    pub fn get_uda_change_focus_rotate(data: &str) -> (r: bool)
        ensures
            r == setting_bool("uda.taskwarrior-tui.tabs.change-focus-rotate"@, data@, false),
    {
        Self::bool_setting("uda.taskwarrior-tui.tabs.change-focus-rotate", data, false)
    }

    /// Setting `uda.taskwarrior-tui.task-report.auto-insert-double-quotes-on-add`, `true` unless set.
    pub fn get_uda_auto_insert_double_quotes_on_add(data: &str) -> (r: bool)
        ensures
            r == setting_bool("uda.taskwarrior-tui.task-report.auto-insert-double-quotes-on-add"@, data@, true),
    {
        Self::bool_setting("uda.taskwarrior-tui.task-report.auto-insert-double-quotes-on-add", data, true)
    }

    /// Setting `uda.taskwarrior-tui.task-report.auto-insert-double-quotes-on-annotate`, `true` unless set.
    pub fn get_uda_auto_insert_double_quotes_on_annotate(data: &str) -> (r: bool)
        ensures
            r == setting_bool("uda.taskwarrior-tui.task-report.auto-insert-double-quotes-on-annotate"@, data@, true),
    {
        Self::bool_setting("uda.taskwarrior-tui.task-report.auto-insert-double-quotes-on-annotate", data, true)
    }

    /// Setting `uda.taskwarrior-tui.task-report.auto-insert-double-quotes-on-log`, `true` unless set.
    pub fn get_uda_auto_insert_double_quotes_on_log(data: &str) -> (r: bool)
        ensures
            r == setting_bool("uda.taskwarrior-tui.task-report.auto-insert-double-quotes-on-log"@, data@, true),
    {
        Self::bool_setting("uda.taskwarrior-tui.task-report.auto-insert-double-quotes-on-log", data, true)
    }

    /// Setting `uda.taskwarrior-tui.task-report.pre-fill-task-meta-data`, `false` unless set.
    pub fn get_uda_prefill_task_metadata(data: &str) -> (r: bool)
        ensures
            r == setting_bool("uda.taskwarrior-tui.task-report.pre-fill-task-meta-data"@, data@, false),
    {
        Self::bool_setting("uda.taskwarrior-tui.task-report.pre-fill-task-meta-data", data, false)
    }

    /// Setting `uda.taskwarrior-tui.task-report.reset-filter-on-esc`, `true` unless set.
    pub fn get_uda_reset_filter_on_esc(data: &str) -> (r: bool)
        ensures
            r == setting_bool("uda.taskwarrior-tui.task-report.reset-filter-on-esc"@, data@, true),
    {
        Self::bool_setting("uda.taskwarrior-tui.task-report.reset-filter-on-esc", data, true)
    }

    /// Setting `uda.taskwarrior-tui.task-report.use-all-tasks-for-completion`, `false` unless set.
    pub fn get_uda_task_report_use_all_tasks_for_completion(data: &str) -> (r: bool)
        ensures
            r == setting_bool("uda.taskwarrior-tui.task-report.use-all-tasks-for-completion"@, data@, false),
    {
        Self::bool_setting("uda.taskwarrior-tui.task-report.use-all-tasks-for-completion", data, false)
    }

    /// Setting `uda.taskwarrior-tui.task-report.use-alternate-style`, `true` unless set.
    pub fn get_uda_task_report_use_alternate_style(data: &str) -> (r: bool)
        ensures
            r == setting_bool("uda.taskwarrior-tui.task-report.use-alternate-style"@, data@, true),
    {
        Self::bool_setting("uda.taskwarrior-tui.task-report.use-alternate-style", data, true)
    }

    /// Setting `uda.taskwarrior-tui.task-report.show-info`, `true` unless set.
    pub fn get_uda_task_report_show_info(data: &str) -> (r: bool)
        ensures
            r == setting_bool("uda.taskwarrior-tui.task-report.show-info"@, data@, true),
    {
        Self::bool_setting("uda.taskwarrior-tui.task-report.show-info", data, true)
    }

    /// Setting `uda.taskwarrior-tui.task-report.looping`, `true` unless set.
    pub fn get_uda_task_report_looping(data: &str) -> (r: bool)
        ensures
            r == setting_bool("uda.taskwarrior-tui.task-report.looping"@, data@, true),
    {
        Self::bool_setting("uda.taskwarrior-tui.task-report.looping", data, true)
    }

    /// Setting `uda.taskwarrior-tui.task-report.jump-to-task-on-add`, `true` unless set.
    pub fn get_uda_task_report_jump_to_task_on_add(data: &str) -> (r: bool)
        ensures
            r == setting_bool("uda.taskwarrior-tui.task-report.jump-to-task-on-add"@, data@, true),
    {
        Self::bool_setting("uda.taskwarrior-tui.task-report.jump-to-task-on-add", data, true)
    }

    /// Setting `uda.taskwarrior-tui.selection.bold`, `true` unless set.
    pub fn get_uda_selection_bold(data: &str) -> (r: bool)
        ensures
            r == setting_bool("uda.taskwarrior-tui.selection.bold"@, data@, true),
    {
        Self::bool_setting("uda.taskwarrior-tui.selection.bold", data, true)
    }

    /// Setting `uda.taskwarrior-tui.selection.italic`, `false` unless set.
    pub fn get_uda_selection_italic(data: &str) -> (r: bool)
        ensures
            r == setting_bool("uda.taskwarrior-tui.selection.italic"@, data@, false),
    {
        Self::bool_setting("uda.taskwarrior-tui.selection.italic", data, false)
    }

    /// Setting `uda.taskwarrior-tui.selection.dim`, `false` unless set.
    pub fn get_uda_selection_dim(data: &str) -> (r: bool)
        ensures
            r == setting_bool("uda.taskwarrior-tui.selection.dim"@, data@, false),
    {
        Self::bool_setting("uda.taskwarrior-tui.selection.dim", data, false)
    }

    /// Setting `uda.taskwarrior-tui.selection.blink`, `false` unless set.
    pub fn get_uda_selection_blink(data: &str) -> (r: bool)
        ensures
            r == setting_bool("uda.taskwarrior-tui.selection.blink"@, data@, false),
    {
        Self::bool_setting("uda.taskwarrior-tui.selection.blink", data, false)
    }

    /// Setting `uda.taskwarrior-tui.selection.reverse`, `false` unless set.
    pub fn get_uda_selection_reverse(data: &str) -> (r: bool)
        ensures
            r == setting_bool("uda.taskwarrior-tui.selection.reverse"@, data@, false),
    {
        Self::bool_setting("uda.taskwarrior-tui.selection.reverse", data, false)
    }

    /// Setting `uda.taskwarrior-tui.task-report.prompt-on-undo`, `false` unless set.
    pub fn get_uda_task_report_prompt_on_undo(data: &str) -> (r: bool)
        ensures
            r == setting_bool("uda.taskwarrior-tui.task-report.prompt-on-undo"@, data@, false),
    {
        Self::bool_setting("uda.taskwarrior-tui.task-report.prompt-on-undo", data, false)
    }

    /// Setting `uda.taskwarrior-tui.task-report.prompt-on-delete`, `false` unless set.
    pub fn get_uda_task_report_prompt_on_delete(data: &str) -> (r: bool)
        ensures
            r == setting_bool("uda.taskwarrior-tui.task-report.prompt-on-delete"@, data@, false),
    {
        Self::bool_setting("uda.taskwarrior-tui.task-report.prompt-on-delete", data, false)
    }

    /// Setting `uda.taskwarrior-tui.task-report.prompt-on-done`, `false` unless set.
    pub fn get_uda_task_report_prompt_on_done(data: &str) -> (r: bool)
        ensures
            r == setting_bool("uda.taskwarrior-tui.task-report.prompt-on-done"@, data@, false),
    {
        Self::bool_setting("uda.taskwarrior-tui.task-report.prompt-on-done", data, false)
    }

    /// Setting `uda.taskwarrior-tui.task-report.date-time-vague-more-precise`, `false` unless set.
    pub fn get_uda_task_report_date_time_vague_more_precise(data: &str) -> (r: bool)
        ensures
            r == setting_bool("uda.taskwarrior-tui.task-report.date-time-vague-more-precise"@, data@, false),
    {
        Self::bool_setting("uda.taskwarrior-tui.task-report.date-time-vague-more-precise", data, false)
    }

    /// Setting `uda.taskwarrior-tui.context-menu.select-on-move`, `false` unless set.
    pub fn get_uda_context_menu_select_on_move(data: &str) -> (r: bool)
        ensures
            r == setting_bool("uda.taskwarrior-tui.context-menu.select-on-move"@, data@, false),
    {
        Self::bool_setting("uda.taskwarrior-tui.context-menu.select-on-move", data, false)
    }

    /// Setting `uda.taskwarrior-tui.context-menu.close-on-select`, `true` unless set.
    pub fn get_uda_context_menu_close_on_select(data: &str) -> (r: bool)
        ensures
            r == setting_bool("uda.taskwarrior-tui.context-menu.close-on-select"@, data@, true),
    {
        Self::bool_setting("uda.taskwarrior-tui.context-menu.close-on-select", data, true)
    }

    /// Setting `uda.taskwarrior-tui.report-menu.select-on-move`, `false` unless set.
    pub fn get_uda_report_menu_select_on_move(data: &str) -> (r: bool)
        ensures
            r == setting_bool("uda.taskwarrior-tui.report-menu.select-on-move"@, data@, false),
    {
        Self::bool_setting("uda.taskwarrior-tui.report-menu.select-on-move", data, false)
    }

    /// Setting `uda.taskwarrior-tui.report-menu.close-on-select`, `true` unless set.
    pub fn get_uda_report_menu_close_on_select(data: &str) -> (r: bool)
        ensures
            r == setting_bool("uda.taskwarrior-tui.report-menu.close-on-select"@, data@, true),
    {
        Self::bool_setting("uda.taskwarrior-tui.report-menu.close-on-select", data, true)
    }

    /// Setting `due`, 7 unless it is set to a number.
    pub fn get_due(data: &str) -> (r: usize)
        ensures
            r == setting_number("due"@, data@, usize::MAX as nat, 7),
    {
        Self::number_setting("due", data, usize::MAX as u64, 7) as usize
    }

    /// Setting `uda.taskwarrior-tui.tick-rate`, 250 unless it is set to a number.
    pub fn get_uda_tick_rate(data: &str) -> (r: u64)
        ensures
            r == setting_number("uda.taskwarrior-tui.tick-rate"@, data@, u64::MAX as nat, 250),
    {
        Self::number_setting("uda.taskwarrior-tui.tick-rate", data, u64::MAX, 250)
    }

    /// Setting `uda.taskwarrior-tui.task-report.task-detail-prefetch`, 10 unless it is set to a number.
    pub fn get_uda_task_detail_prefetch(data: &str) -> (r: usize)
        ensures
            r == setting_number("uda.taskwarrior-tui.task-report.task-detail-prefetch"@, data@, usize::MAX as nat, 10),
    {
        Self::number_setting("uda.taskwarrior-tui.task-report.task-detail-prefetch", data, usize::MAX as u64, 10) as usize
    }

    /// Setting `uda.taskwarrior-tui.calendar.months-per-row`, 4 unless it is set to a number.
    pub fn get_uda_months_per_row(data: &str) -> (r: usize)
        ensures
            r == setting_number("uda.taskwarrior-tui.calendar.months-per-row"@, data@, usize::MAX as nat, 4),
    {
        Self::number_setting("uda.taskwarrior-tui.calendar.months-per-row", data, usize::MAX as u64, 4) as usize
    }

    /// Setting `uda.taskwarrior-tui.background_process_period`, 60 unless it is set to a number.
    pub fn get_uda_background_process_period(data: &str) -> (r: usize)
        ensures
            r == setting_number("uda.taskwarrior-tui.background_process_period"@, data@, usize::MAX as nat, 60),
    {
        Self::number_setting("uda.taskwarrior-tui.background_process_period", data, usize::MAX as u64, 60) as usize
    }

    /// Setting `uda.taskwarrior-tui.selection.indicator` followed by a space, `"\u{2022} "` unless set.
    pub fn get_uda_selection_indicator(data: &str) -> (r: String)
        ensures
            r@ == indicator_setting("uda.taskwarrior-tui.selection.indicator"@, data@, "\u{2022} "@),
    {
        Self::indicator("uda.taskwarrior-tui.selection.indicator", data, "\u{2022} ")
    }

    /// Setting `uda.taskwarrior-tui.mark-selection.indicator` followed by a space, `"\u{29bf} "` unless set.
    pub fn get_uda_mark_highlight_indicator(data: &str) -> (r: String)
        ensures
            r@ == indicator_setting("uda.taskwarrior-tui.mark-selection.indicator"@, data@, "\u{29bf} "@),
    {
        Self::indicator("uda.taskwarrior-tui.mark-selection.indicator", data, "\u{29bf} ")
    }

    /// Setting `uda.taskwarrior-tui.unmark-selection.indicator` followed by a space, `"\u{29be} "` unless set.
    pub fn get_uda_unmark_highlight_indicator(data: &str) -> (r: String)
        ensures
            r@ == indicator_setting("uda.taskwarrior-tui.unmark-selection.indicator"@, data@, "\u{29be} "@),
    {
        Self::indicator("uda.taskwarrior-tui.unmark-selection.indicator", data, "\u{29be} ")
    }

    /// Setting `uda.taskwarrior-tui.mark.indicator` followed by a space, `"\u{2714} "` unless set.
    pub fn get_uda_mark_indicator(data: &str) -> (r: String)
        ensures
            r@ == indicator_setting("uda.taskwarrior-tui.mark.indicator"@, data@, "\u{2714} "@),
    {
        Self::indicator("uda.taskwarrior-tui.mark.indicator", data, "\u{2714} ")
    }

    /// Setting `uda.taskwarrior-tui.unmark.indicator` followed by a space, `"  "` unless set.
    pub fn get_uda_unmark_indicator(data: &str) -> (r: String)
        ensures
            r@ == indicator_setting("uda.taskwarrior-tui.unmark.indicator"@, data@, "  "@),
    {
        Self::indicator("uda.taskwarrior-tui.unmark.indicator", data, "  ")
    }

    /// The first character of setting `uda.taskwarrior-tui.scrollbar.indicator`, `'\u{2588}'` unless set.
    pub fn get_uda_scrollbar_indicator(data: &str) -> (r: String)
        ensures
            r@ == first_char_setting("uda.taskwarrior-tui.scrollbar.indicator"@, data@, '\u{2588}'),
    {
        Self::first_char("uda.taskwarrior-tui.scrollbar.indicator", data, '\u{2588}')
    }

    /// The first character of setting `uda.taskwarrior-tui.scrollbar.area`, `'\u{2551}'` unless set.
    pub fn get_uda_scrollbar_area(data: &str) -> (r: String)
        ensures
            r@ == first_char_setting("uda.taskwarrior-tui.scrollbar.area"@, data@, '\u{2551}'),
    {
        Self::first_char("uda.taskwarrior-tui.scrollbar.area", data, '\u{2551}')
    }
}


impl Config {
    /// The settings read from `data`, the output of `task show`, for `report`
    /// on a terminal `terminal_width` columns wide.
    pub fn new(data: &str, report: &str, terminal_width: u16) -> (r: Result<Config, String>)
        requires
            config_readable(data@),
        ensures
            r matches Ok(c) && {
                &&& c.enabled
                &&& c.color@ == color_map(split_char(data@, '\n'))
                &&& keyword_colors(c.color@, c.color_keywords@)
                &&& c.filter@ == filter_prefix(data@, report@)
                &&& c.data_location@ == config_value("data.location"@, data@)->0
                &&& !c.obfuscate
                &&& !c.print_empty_columns
                &&& c.weekstart == (ascii_lower(value_or_empty("weekstart"@, data@)) == "monday"@)
                &&& crate::pane::context::strings_view(c.rule_precedence_color@) == split_char(config_value("rule.precedence.color"@, data@)->0, ',')
                &&& crate::pane::context::strings_view(c.uda_priority_values@) == split_char(config_value("uda.priority.values"@, data@)->0, ',')
                &&& c.uda_change_focus_rotate == setting_bool("uda.taskwarrior-tui.tabs.change-focus-rotate"@, data@, false)
                &&& c.uda_auto_insert_double_quotes_on_add == setting_bool("uda.taskwarrior-tui.task-report.auto-insert-double-quotes-on-add"@, data@, true)
                &&& c.uda_auto_insert_double_quotes_on_annotate == setting_bool("uda.taskwarrior-tui.task-report.auto-insert-double-quotes-on-annotate"@, data@, true)
                &&& c.uda_auto_insert_double_quotes_on_log == setting_bool("uda.taskwarrior-tui.task-report.auto-insert-double-quotes-on-log"@, data@, true)
                &&& c.uda_prefill_task_metadata == setting_bool("uda.taskwarrior-tui.task-report.pre-fill-task-meta-data"@, data@, false)
                &&& c.uda_reset_filter_on_esc == setting_bool("uda.taskwarrior-tui.task-report.reset-filter-on-esc"@, data@, true)
                &&& c.uda_task_report_use_all_tasks_for_completion == setting_bool("uda.taskwarrior-tui.task-report.use-all-tasks-for-completion"@, data@, false)
                &&& c.uda_task_report_use_alternate_style == setting_bool("uda.taskwarrior-tui.task-report.use-alternate-style"@, data@, true)
                &&& c.uda_task_report_show_info == setting_bool("uda.taskwarrior-tui.task-report.show-info"@, data@, true)
                &&& c.uda_task_report_looping == setting_bool("uda.taskwarrior-tui.task-report.looping"@, data@, true)
                &&& c.uda_task_report_jump_to_task_on_add == setting_bool("uda.taskwarrior-tui.task-report.jump-to-task-on-add"@, data@, true)
                &&& c.uda_selection_bold == setting_bool("uda.taskwarrior-tui.selection.bold"@, data@, true)
                &&& c.uda_selection_italic == setting_bool("uda.taskwarrior-tui.selection.italic"@, data@, false)
                &&& c.uda_selection_dim == setting_bool("uda.taskwarrior-tui.selection.dim"@, data@, false)
                &&& c.uda_selection_blink == setting_bool("uda.taskwarrior-tui.selection.blink"@, data@, false)
                &&& c.uda_selection_reverse == setting_bool("uda.taskwarrior-tui.selection.reverse"@, data@, false)
                &&& c.uda_task_report_prompt_on_undo == setting_bool("uda.taskwarrior-tui.task-report.prompt-on-undo"@, data@, false)
                &&& c.uda_task_report_prompt_on_delete == setting_bool("uda.taskwarrior-tui.task-report.prompt-on-delete"@, data@, false)
                &&& c.uda_task_report_prompt_on_done == setting_bool("uda.taskwarrior-tui.task-report.prompt-on-done"@, data@, false)
                &&& c.uda_task_report_date_time_vague_more_precise == setting_bool("uda.taskwarrior-tui.task-report.date-time-vague-more-precise"@, data@, false)
                &&& c.uda_context_menu_select_on_move == setting_bool("uda.taskwarrior-tui.context-menu.select-on-move"@, data@, false)
                &&& c.uda_context_menu_close_on_select == setting_bool("uda.taskwarrior-tui.context-menu.close-on-select"@, data@, true)
                &&& c.uda_report_menu_select_on_move == setting_bool("uda.taskwarrior-tui.report-menu.select-on-move"@, data@, false)
                &&& c.uda_report_menu_close_on_select == setting_bool("uda.taskwarrior-tui.report-menu.close-on-select"@, data@, true)
                &&& c.due == setting_number("due"@, data@, usize::MAX as nat, 7)
                &&& c.uda_tick_rate == setting_number("uda.taskwarrior-tui.tick-rate"@, data@, u64::MAX as nat, 250)
                &&& c.uda_task_detail_prefetch == setting_number("uda.taskwarrior-tui.task-report.task-detail-prefetch"@, data@, usize::MAX as nat, 10)
                &&& c.uda_calendar_months_per_row == setting_number("uda.taskwarrior-tui.calendar.months-per-row"@, data@, usize::MAX as nat, 4)
                &&& c.uda_background_process_period == setting_number("uda.taskwarrior-tui.background_process_period"@, data@, usize::MAX as nat, 60)
                &&& c.uda_selection_indicator@ == indicator_setting("uda.taskwarrior-tui.selection.indicator"@, data@, "\u{2022} "@)
                &&& c.uda_mark_highlight_indicator@ == indicator_setting("uda.taskwarrior-tui.mark-selection.indicator"@, data@, "\u{29bf} "@)
                &&& c.uda_unmark_highlight_indicator@ == indicator_setting("uda.taskwarrior-tui.unmark-selection.indicator"@, data@, "\u{29be} "@)
                &&& c.uda_mark_indicator@ == indicator_setting("uda.taskwarrior-tui.mark.indicator"@, data@, "\u{2714} "@)
                &&& c.uda_unmark_indicator@ == indicator_setting("uda.taskwarrior-tui.unmark.indicator"@, data@, "  "@)
                &&& c.uda_scrollbar_indicator@ == first_char_setting("uda.taskwarrior-tui.scrollbar.indicator"@, data@, '\u{2588}')
                &&& c.uda_scrollbar_area@ == first_char_setting("uda.taskwarrior-tui.scrollbar.area"@, data@, '\u{2551}')
                &&& c.uda_style_report_selection == uda_style_or("report.selection"@, data@, crate::color::plain_style())
                &&& c.uda_style_report_scrollbar == uda_style_or("report.scrollbar"@, data@, fg_style(Color::Black))
                &&& c.uda_style_report_scrollbar_area == uda_style_or("report.scrollbar.area"@, data@, crate::color::plain_style())
                &&& c.uda_style_calendar_title == uda_style_or("calendar.title"@, data@, tcolor_or_plain("black on rgb444"@))
                &&& c.uda_style_calendar_today == uda_style_or("calendar.today"@, data@, modifier_style(BOLD))
                &&& c.uda_style_navbar == uda_style_or("navbar"@, data@, modifier_style(REVERSED))
                &&& c.uda_style_command == uda_style_or("command"@, data@, modifier_style(REVERSED))
                &&& c.uda_style_context_active == uda_style_or("context.active"@, data@, tcolor_or_plain("black on rgb444"@))
                &&& c.uda_style_report_menu_active == uda_style_or("report-menu.active"@, data@, modifier_style(BOLD))
                &&& c.uda_style_report_completion_pane == uda_style_or("report.completion-pane"@, data@, completion_pane_style())
                &&& c.uda_style_report_completion_pane_highlight == uda_style_or("report.completion-pane-highlight"@, data@, c.uda_style_report_completion_pane)
                &&& c.uda_style_title == uda_style_or("title"@, data@, fg_style(Color::LightCyan))
                &&& c.uda_style_title_border == uda_style_or("title.border"@, data@, fg_style(Color::White))
                &&& c.uda_style_help_gauge == uda_style_or("help.gauge"@, data@, fg_style(Color::Gray))
                &&& c.uda_style_command_error == uda_style_or("command.error"@, data@, fg_style(Color::Red))
                &&& c.uda_shortcuts@.len() == 10
                &&& forall|i: int| 0 <= i < 10 ==> #[trigger] c.uda_shortcuts@[i]@ == value_or_empty(shortcut_key(i as nat), data@)
                &&& c.uda_background_process@ == value_or_empty("uda.taskwarrior-tui.background_process"@, data@)
                &&& c.uda_quick_tag_name@ == match config_value("uda.taskwarrior-tui.quick-tag.name"@, data@) { Some(v) => v, None => "next"@ }
                &&& c.uda_tasklist_vertical == setting_bool("uda.taskwarrior-tui.tasklist.vertical"@, data@, terminal_width <= 160)
            },
    {
        let color = Self::get_color_collection(data);
        let color_keywords = color.with_prefix("color.keyword.");
        let raw = match Self::get_filter(data, report) {
            Ok(f) => f,
            Err(e) => {
                return Err(e);
            },
        };
        let rc = chars_of(raw.as_str());
        let filter = if trim_chars(rc.as_slice()).len() == 0 {
            raw
        } else {
            let mut fc = rc;
            fc.push(' ');
            string_of(fc.as_slice())
        };
        let data_location = match Self::get_config("data.location", data) {
            Some(v) => v,
            None => String::new(),
        };
        let uda_style_report_selection = match Self::get_uda_style("report.selection", data) {
            Some(st) => st,
            None => Style::new(),
        };
        let uda_style_report_scrollbar = match Self::get_uda_style("report.scrollbar", data) {
            Some(st) => st,
            None => Style { fg: Some(Color::Black), bg: None, add_modifier: 0, sub_modifier: 0 },
        };
        let uda_style_report_scrollbar_area = match Self::get_uda_style("report.scrollbar.area", data) {
            Some(st) => st,
            None => Style::new(),
        };
        let uda_style_calendar_title = match Self::get_uda_style("calendar.title", data) {
            Some(st) => st,
            None => Self::get_tcolor("black on rgb444"),
        };
        let uda_style_calendar_today = match Self::get_uda_style("calendar.today", data) {
            Some(st) => st,
            None => Style { fg: None, bg: None, add_modifier: BOLD, sub_modifier: 0 },
        };
        let uda_style_navbar = match Self::get_uda_style("navbar", data) {
            Some(st) => st,
            None => Style { fg: None, bg: None, add_modifier: REVERSED, sub_modifier: 0 },
        };
        let uda_style_command = match Self::get_uda_style("command", data) {
            Some(st) => st,
            None => Style { fg: None, bg: None, add_modifier: REVERSED, sub_modifier: 0 },
        };
        let uda_style_context_active = match Self::get_uda_style("context.active", data) {
            Some(st) => st,
            None => Self::get_tcolor("black on rgb444"),
        };
        let uda_style_report_menu_active = match Self::get_uda_style("report-menu.active", data) {
            Some(st) => st,
            None => Style { fg: None, bg: None, add_modifier: BOLD, sub_modifier: 0 },
        };
        let uda_style_report_completion_pane = match Self::get_uda_style("report.completion-pane", data) {
            Some(st) => st,
            None => Style { fg: Some(Color::Black), bg: Some(Color::Rgb(223, 223, 223)), add_modifier: 0, sub_modifier: 0 },
        };
        let uda_style_title = match Self::get_uda_style("title", data) {
            Some(st) => st,
            None => Style { fg: Some(Color::LightCyan), bg: None, add_modifier: 0, sub_modifier: 0 },
        };
        let uda_style_title_border = match Self::get_uda_style("title.border", data) {
            Some(st) => st,
            None => Style { fg: Some(Color::White), bg: None, add_modifier: 0, sub_modifier: 0 },
        };
        let uda_style_help_gauge = match Self::get_uda_style("help.gauge", data) {
            Some(st) => st,
            None => Style { fg: Some(Color::Gray), bg: None, add_modifier: 0, sub_modifier: 0 },
        };
        let uda_style_command_error = match Self::get_uda_style("command.error", data) {
            Some(st) => st,
            None => Style { fg: Some(Color::Red), bg: None, add_modifier: 0, sub_modifier: 0 },
        };
        let uda_style_report_completion_pane_highlight = match Self::get_uda_style(
            "report.completion-pane-highlight",
            data,
        ) {
            Some(st) => st,
            None => uda_style_report_completion_pane,
        };
        Ok(Config {
            enabled: true,
            color,
            color_keywords,
            filter,
            data_location,
            obfuscate: false,
            print_empty_columns: false,
            due: Self::get_due(data),
            weekstart: Self::get_weekstart(data),
            rule_precedence_color: Self::split_setting("rule.precedence.color", data),
            uda_priority_values: Self::split_setting("uda.priority.values", data),
            uda_tick_rate: Self::get_uda_tick_rate(data),
            uda_change_focus_rotate: Self::get_uda_change_focus_rotate(data),
            uda_auto_insert_double_quotes_on_add: Self::get_uda_auto_insert_double_quotes_on_add(data),
            uda_auto_insert_double_quotes_on_annotate: Self::get_uda_auto_insert_double_quotes_on_annotate(data),
            uda_auto_insert_double_quotes_on_log: Self::get_uda_auto_insert_double_quotes_on_log(data),
            uda_prefill_task_metadata: Self::get_uda_prefill_task_metadata(data),
            uda_reset_filter_on_esc: Self::get_uda_reset_filter_on_esc(data),
            uda_task_report_use_all_tasks_for_completion: Self::get_uda_task_report_use_all_tasks_for_completion(data),
            uda_task_report_use_alternate_style: Self::get_uda_task_report_use_alternate_style(data),
            uda_task_report_show_info: Self::get_uda_task_report_show_info(data),
            uda_task_report_looping: Self::get_uda_task_report_looping(data),
            uda_task_report_jump_to_task_on_add: Self::get_uda_task_report_jump_to_task_on_add(data),
            uda_selection_bold: Self::get_uda_selection_bold(data),
            uda_selection_italic: Self::get_uda_selection_italic(data),
            uda_selection_dim: Self::get_uda_selection_dim(data),
            uda_selection_blink: Self::get_uda_selection_blink(data),
            uda_selection_reverse: Self::get_uda_selection_reverse(data),
            uda_task_report_prompt_on_undo: Self::get_uda_task_report_prompt_on_undo(data),
            uda_task_report_prompt_on_delete: Self::get_uda_task_report_prompt_on_delete(data),
            uda_task_report_prompt_on_done: Self::get_uda_task_report_prompt_on_done(data),
            uda_task_report_date_time_vague_more_precise: Self::get_uda_task_report_date_time_vague_more_precise(data),
            uda_context_menu_select_on_move: Self::get_uda_context_menu_select_on_move(data),
            uda_context_menu_close_on_select: Self::get_uda_context_menu_close_on_select(data),
            uda_report_menu_select_on_move: Self::get_uda_report_menu_select_on_move(data),
            uda_report_menu_close_on_select: Self::get_uda_report_menu_close_on_select(data),
            uda_task_detail_prefetch: Self::get_uda_task_detail_prefetch(data),
            uda_calendar_months_per_row: Self::get_uda_months_per_row(data),
            uda_background_process_period: Self::get_uda_background_process_period(data),
            uda_selection_indicator: Self::get_uda_selection_indicator(data),
            uda_mark_highlight_indicator: Self::get_uda_mark_highlight_indicator(data),
            uda_unmark_highlight_indicator: Self::get_uda_unmark_highlight_indicator(data),
            uda_mark_indicator: Self::get_uda_mark_indicator(data),
            uda_unmark_indicator: Self::get_uda_unmark_indicator(data),
            uda_scrollbar_indicator: Self::get_uda_scrollbar_indicator(data),
            uda_scrollbar_area: Self::get_uda_scrollbar_area(data),
            uda_style_report_selection,
            uda_style_report_scrollbar,
            uda_style_report_scrollbar_area,
            uda_style_calendar_title,
            uda_style_calendar_today,
            uda_style_navbar,
            uda_style_command,
            uda_style_context_active,
            uda_style_report_menu_active,
            uda_style_report_completion_pane,
            uda_style_report_completion_pane_highlight,
            uda_style_title,
            uda_style_title_border,
            uda_style_help_gauge,
            uda_style_command_error,
            uda_shortcuts: Self::get_uda_shortcuts(data),
            uda_background_process: Self::value_of("uda.taskwarrior-tui.background_process", data),
            uda_quick_tag_name: Self::get_uda_quick_tag_name(data),
            uda_tasklist_vertical: Self::get_uda_tasklist_vertical(data, terminal_width),
        })
    }
}

} // verus!
