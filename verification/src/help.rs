//! The help screen: a template whose `{{action}}` placeholders are replaced by
//! the configured keys, with its `key|description` lines aligned in two columns.
use vstd::prelude::*;

use crate::event::KeyCode;
use crate::keyconfig::{bracketed, key_value_lowered, law_modifier_prefixes, lemma_bracketed_inner, named_key, KeyConfig};
use crate::text::{
    all_digits, digit_char, digit_value, ascii_lower, ascii_lower_char, decimal_value, ends_with, is_ascii_text, is_digit, is_ws,
    lemma_find_char_at, lemma_find_char_none, starts_with, trim_end, trim_start,
    byte_len, byte_len_chars, chars_eq_str, chars_of, decimal_chars, decimal_of, find, find_char,
    find_char_in, find_chars, lines_chars, lines_of, push_all, push_str, slice_range, string_of,
};

verus! {

/// The help screen.
pub struct Help {
    pub title: String,
    pub scroll: u16,
    pub text_height: usize,
    /// The text of the help screen, made from the current key configuration.
    pub text: String,
}

#[verifier::opaque]
pub open spec fn key_for_name(name: Seq<char>, kc: KeyConfig) -> KeyCode {
    if name == "quit"@ {
        kc.quit
    } else if name == "refresh"@ {
        kc.refresh
    } else if name == "next_tab"@ {
        kc.next_tab
    } else if name == "previous_tab"@ {
        kc.previous_tab
    } else if name == "filter"@ {
        kc.filter
    } else if name == "add"@ {
        kc.add
    } else if name == "done"@ {
        kc.done
    } else if name == "edit"@ {
        kc.edit
    } else if name == "duplicate"@ {
        kc.duplicate
    } else if name == "down"@ {
        kc.down
    } else if name == "up"@ {
        kc.up
    } else if name == "page_down"@ {
        kc.page_down
    } else if name == "page_up"@ {
        kc.page_up
    } else if name == "go_to_top"@ {
        kc.go_to_top
    } else if name == "go_to_bottom"@ {
        kc.go_to_bottom
    } else if name == "log"@ {
        kc.log
    } else if name == "modify"@ {
        kc.modify
    } else if name == "start_stop"@ {
        kc.start_stop
    } else if name == "quick_tag"@ {
        kc.quick_tag
    } else if name == "undo"@ {
        kc.undo
    } else if name == "select"@ {
        kc.select
    } else if name == "select_all"@ {
        kc.select_all
    } else if name == "delete"@ {
        kc.delete
    } else if name == "zoom"@ {
        kc.zoom
    } else if name == "annotate"@ {
        kc.annotate
    } else if name == "shell"@ {
        kc.shell
    } else if name == "shortcut0"@ {
        kc.shortcut0
    } else if name == "shortcut1"@ {
        kc.shortcut1
    } else if name == "shortcut2"@ {
        kc.shortcut2
    } else if name == "shortcut3"@ {
        kc.shortcut3
    } else if name == "shortcut4"@ {
        kc.shortcut4
    } else if name == "shortcut5"@ {
        kc.shortcut5
    } else if name == "shortcut6"@ {
        kc.shortcut6
    } else if name == "shortcut7"@ {
        kc.shortcut7
    } else if name == "shortcut8"@ {
        kc.shortcut8
    } else if name == "shortcut9"@ {
        kc.shortcut9
    } else if name == "context_menu"@ {
        kc.context_menu
    } else if name == "help"@ {
        kc.help
    } else if name == "scroll_down"@ {
        kc.scroll_down
    } else if name == "scroll_up"@ {
        kc.scroll_up
    } else if name == "jump"@ {
        kc.jump
    } else if name == "reset_filter"@ {
        kc.reset_filter
    } else if name == "priority_h"@ {
        kc.priority_h
    } else if name == "priority_m"@ {
        kc.priority_m
    } else if name == "priority_l"@ {
        kc.priority_l
    } else if name == "priority_n"@ {
        kc.priority_n
    } else if name == "priority_up"@ {
        kc.priority_up
    } else if name == "priority_down"@ {
        kc.priority_down
    } else {
        KeyCode::Null
    }
}

/// The configured key for an action named in the help template; `Null` for
/// an unknown name.
pub fn keycode_for(name: &str, kc: &KeyConfig) -> (r: KeyCode)
    ensures
        r == key_for_name(name@, *kc),
{
    reveal(key_for_name);
    let v = chars_of(name);
    if chars_eq_str(v.as_slice(), "quit") {
        kc.quit
    } else if chars_eq_str(v.as_slice(), "refresh") {
        kc.refresh
    } else if chars_eq_str(v.as_slice(), "next_tab") {
        kc.next_tab
    } else if chars_eq_str(v.as_slice(), "previous_tab") {
        kc.previous_tab
    } else if chars_eq_str(v.as_slice(), "filter") {
        kc.filter
    } else if chars_eq_str(v.as_slice(), "add") {
        kc.add
    } else if chars_eq_str(v.as_slice(), "done") {
        kc.done
    } else if chars_eq_str(v.as_slice(), "edit") {
        kc.edit
    } else if chars_eq_str(v.as_slice(), "duplicate") {
        kc.duplicate
    } else if chars_eq_str(v.as_slice(), "down") {
        kc.down
    } else if chars_eq_str(v.as_slice(), "up") {
        kc.up
    } else if chars_eq_str(v.as_slice(), "page_down") {
        kc.page_down
    } else if chars_eq_str(v.as_slice(), "page_up") {
        kc.page_up
    } else if chars_eq_str(v.as_slice(), "go_to_top") {
        kc.go_to_top
    } else if chars_eq_str(v.as_slice(), "go_to_bottom") {
        kc.go_to_bottom
    } else if chars_eq_str(v.as_slice(), "log") {
        kc.log
    } else if chars_eq_str(v.as_slice(), "modify") {
        kc.modify
    } else if chars_eq_str(v.as_slice(), "start_stop") {
        kc.start_stop
    } else if chars_eq_str(v.as_slice(), "quick_tag") {
        kc.quick_tag
    } else if chars_eq_str(v.as_slice(), "undo") {
        kc.undo
    } else if chars_eq_str(v.as_slice(), "select") {
        kc.select
    } else if chars_eq_str(v.as_slice(), "select_all") {
        kc.select_all
    } else if chars_eq_str(v.as_slice(), "delete") {
        kc.delete
    } else if chars_eq_str(v.as_slice(), "zoom") {
        kc.zoom
    } else if chars_eq_str(v.as_slice(), "annotate") {
        kc.annotate
    } else if chars_eq_str(v.as_slice(), "shell") {
        kc.shell
    } else if chars_eq_str(v.as_slice(), "shortcut0") {
        kc.shortcut0
    } else if chars_eq_str(v.as_slice(), "shortcut1") {
        kc.shortcut1
    } else if chars_eq_str(v.as_slice(), "shortcut2") {
        kc.shortcut2
    } else if chars_eq_str(v.as_slice(), "shortcut3") {
        kc.shortcut3
    } else if chars_eq_str(v.as_slice(), "shortcut4") {
        kc.shortcut4
    } else if chars_eq_str(v.as_slice(), "shortcut5") {
        kc.shortcut5
    } else if chars_eq_str(v.as_slice(), "shortcut6") {
        kc.shortcut6
    } else if chars_eq_str(v.as_slice(), "shortcut7") {
        kc.shortcut7
    } else if chars_eq_str(v.as_slice(), "shortcut8") {
        kc.shortcut8
    } else if chars_eq_str(v.as_slice(), "shortcut9") {
        kc.shortcut9
    } else if chars_eq_str(v.as_slice(), "context_menu") {
        kc.context_menu
    } else if chars_eq_str(v.as_slice(), "help") {
        kc.help
    } else if chars_eq_str(v.as_slice(), "scroll_down") {
        kc.scroll_down
    } else if chars_eq_str(v.as_slice(), "scroll_up") {
        kc.scroll_up
    } else if chars_eq_str(v.as_slice(), "jump") {
        kc.jump
    } else if chars_eq_str(v.as_slice(), "reset_filter") {
        kc.reset_filter
    } else if chars_eq_str(v.as_slice(), "priority_h") {
        kc.priority_h
    } else if chars_eq_str(v.as_slice(), "priority_m") {
        kc.priority_m
    } else if chars_eq_str(v.as_slice(), "priority_l") {
        kc.priority_l
    } else if chars_eq_str(v.as_slice(), "priority_n") {
        kc.priority_n
    } else if chars_eq_str(v.as_slice(), "priority_up") {
        kc.priority_up
    } else if chars_eq_str(v.as_slice(), "priority_down") {
        kc.priority_down
    } else {
        KeyCode::Null
    }
}

/// How a key is shown on the help screen, in the notation of the configuration file.
pub open spec fn key_display(k: KeyCode) -> Seq<char> {
    match k {
        KeyCode::Char(c) => if c == '\n' {
            "<Enter>"@
        } else if c == ' ' {
            "<Space>"@
        } else {
            seq![c]
        },
        KeyCode::Ctrl(c) => "<C-"@ + seq![c] + ">"@,
        KeyCode::Alt(c) => "<A-"@ + seq![c] + ">"@,
        KeyCode::Esc => "<Esc>"@,
        KeyCode::Tab => "<Tab>"@,
        KeyCode::BackTab => "<S-Tab>"@,
        KeyCode::Backspace => "<BS>"@,
        KeyCode::Delete => "<Del>"@,
        KeyCode::Insert => "<Ins>"@,
        KeyCode::Up => "<Up>"@,
        KeyCode::Down => "<Down>"@,
        KeyCode::Left => "<Left>"@,
        KeyCode::Right => "<Right>"@,
        KeyCode::PageUp => "<PageUp>"@,
        KeyCode::PageDown => "<PageDown>"@,
        KeyCode::Home => "<Home>"@,
        KeyCode::End => "<End>"@,
        KeyCode::F(n) => "<F"@ + decimal_of(n as nat) + ">"@,
        KeyCode::CtrlBackspace => "<C-BS>"@,
        KeyCode::CtrlDelete => "<C-Del>"@,
        KeyCode::AltBackspace => "<A-BS>"@,
        KeyCode::AltDelete => "<A-Del>"@,
        KeyCode::Null => "<Null>"@,
        KeyCode::Nop => "<Nop>"@,
    }
}

fn lit(s: &str) -> (r: Vec<char>)
    ensures
        r@ == s@,
{
    chars_of(s)
}

/// How a key is shown on the help screen, in the angle-bracket notation of
/// the configuration file.
pub fn keycode_to_string(kc: KeyCode) -> (r: String)
    ensures
        r@ == key_display(kc),
{
    let v: Vec<char> = match kc {
        KeyCode::Char(c) => if c == '\n' {
            lit("<Enter>")
        } else if c == ' ' {
            lit("<Space>")
        } else {
            vec![c]
        },
        KeyCode::Ctrl(c) => {
            let mut v = lit("<C-");
            v.push(c);
            push_str(&mut v, ">");
            v
        },
        KeyCode::Alt(c) => {
            let mut v = lit("<A-");
            v.push(c);
            push_str(&mut v, ">");
            v
        },
        KeyCode::Esc => lit("<Esc>"),
        KeyCode::Tab => lit("<Tab>"),
        KeyCode::BackTab => lit("<S-Tab>"),
        KeyCode::Backspace => lit("<BS>"),
        KeyCode::Delete => lit("<Del>"),
        KeyCode::Insert => lit("<Ins>"),
        KeyCode::Up => lit("<Up>"),
        KeyCode::Down => lit("<Down>"),
        KeyCode::Left => lit("<Left>"),
        KeyCode::Right => lit("<Right>"),
        KeyCode::PageUp => lit("<PageUp>"),
        KeyCode::PageDown => lit("<PageDown>"),
        KeyCode::Home => lit("<Home>"),
        KeyCode::End => lit("<End>"),
        KeyCode::F(n) => {
            let mut v = lit("<F");
            let d = decimal_chars(n as u64);
            push_all(&mut v, d.as_slice());
            push_str(&mut v, ">");
            v
        },
        KeyCode::CtrlBackspace => lit("<C-BS>"),
        KeyCode::CtrlDelete => lit("<C-Del>"),
        KeyCode::AltBackspace => lit("<A-BS>"),
        KeyCode::AltDelete => lit("<A-Del>"),
        KeyCode::Null => lit("<Null>"),
        KeyCode::Nop => lit("<Nop>"),
    };
    proof {
        match kc {
            KeyCode::Ctrl(c) => assert(v@ =~= "<C-"@ + seq![c] + ">"@),
            KeyCode::Alt(c) => assert(v@ =~= "<A-"@ + seq![c] + ">"@),
            KeyCode::F(n) => assert(v@ =~= "<F"@ + decimal_of(n as nat) + ">"@),
            _ => {},
        }
    }
    string_of(v.as_slice())
}

/// The template with every `{{name}}` replaced by the key bound to `name`.
/// An opening `{{` without a closing `}}` stops the replacement; the rest of
/// the template is copied once, unchanged.
pub open spec fn substitute(t: Seq<char>, kc: KeyConfig) -> Seq<char>
    decreases t.len(),
{
    match find(t, seq!['{', '{']) {
        Some(s) => if 0 <= s && s + 2 <= t.len() {
            let after = t.subrange(s + 2, t.len() as int);
            match find(after, seq!['}', '}']) {
                Some(end) => if 0 <= end && end + 2 <= after.len() {
                    t.subrange(0, s) + key_display(key_for_name(after.subrange(0, end), kc))
                        + substitute(after.subrange(end + 2, after.len() as int), kc)
                } else {
                    t
                },
                None => t,
            }
        } else {
            t
        },
        None => t,
    }
}

/// Capped at `usize::MAX`, the number of bytes before the first `|` of a line.
pub open spec fn key_width(l: Seq<char>) -> nat {
    match find_char(l, '|') {
        Some(p) => {
            let b = byte_len(l.subrange(0, p));
            if b <= usize::MAX {
                b
            } else {
                usize::MAX as nat
            }
        },
        None => 0,
    }
}

/// The widest key column among `ls`.
pub open spec fn max_key_width(ls: Seq<Seq<char>>) -> nat
    decreases ls.len(),
{
    if ls.len() == 0 {
        0
    } else {
        let a = max_key_width(ls.drop_last());
        let b = key_width(ls.last());
        if a >= b {
            a
        } else {
            b
        }
    }
}

/// `s` padded with spaces to `w` characters.
pub open spec fn pad_right(s: Seq<char>, w: nat) -> Seq<char> {
    if s.len() < w {
        s + Seq::new((w - s.len()) as nat, |i: int| ' ')
    } else {
        s
    }
}

/// A line of the help text, its key column padded to `w`.
pub open spec fn render_line(l: Seq<char>, w: nat) -> Seq<char> {
    match find_char(l, '|') {
        Some(p) => pad_right(l.subrange(0, p), w) + seq![' ', ' '] + l.subrange(p + 1, l.len() as int),
        None => l,
    }
}

/// Lines joined with `\n`.
pub open spec fn join_lines(ls: Seq<Seq<char>>) -> Seq<char>
    decreases ls.len(),
{
    if ls.len() == 0 {
        Seq::empty()
    } else if ls.len() == 1 {
        ls[0]
    } else {
        join_lines(ls.drop_last()) + seq!['\n'] + ls.last()
    }
}

/// The help text for key configuration `kc` and template `tmpl`.
pub open spec fn help_text(kc: KeyConfig, tmpl: Seq<char>) -> Seq<char> {
    let ls = lines_of(substitute(tmpl, kc));
    let w = max_key_width(ls);
    join_lines(ls.map_values(|l: Seq<char>| render_line(l, w)))
}

#[verifier::rlimit(40)]
#[verifier::spinoff_prover]
fn substitute_chars(t: &[char], kc: &KeyConfig) -> (r: Vec<char>)
    ensures
        r@ == substitute(t@, *kc),
{
    let open = vec!['{', '{'];
    let close = vec!['}', '}'];
    assert(open@ == seq!['{', '{']);
    assert(close@ == seq!['}', '}']);
    let n = t.len();
    let mut out: Vec<char> = Vec::new();
    let mut i: usize = 0;
    assert(t@.subrange(0, n as int) =~= t@);
    loop
        invariant
            n == t@.len(),
            i <= n,
            open@ == seq!['{', '{'],
            close@ == seq!['}', '}'],
            substitute(t@, *kc) == out@ + substitute(t@.subrange(i as int, n as int), *kc),
        decreases n - i,
    {
        let rest = slice_range(t, i, n);
        match find_chars(rest.as_slice(), open.as_slice()) {
            None => {
                push_all(&mut out, rest.as_slice());
                return out;
            },
            Some(s) => {
                let after = slice_range(rest.as_slice(), s + 2, rest.len());
                match find_chars(after.as_slice(), close.as_slice()) {
                    None => {
                        push_all(&mut out, rest.as_slice());
                        return out;
                    },
                    Some(end) => {
                        let before = slice_range(rest.as_slice(), 0, s);
                        let name = slice_range(after.as_slice(), 0, end);
                        let nm = string_of(name.as_slice());
                        let k = keycode_for(nm.as_str(), kc);
                        let shown = keycode_to_string(k);
                        let ghost out0 = out@;
                        push_all(&mut out, before.as_slice());
                        push_str(&mut out, shown.as_str());
                        proof {
                            let tail = after@.subrange(end + 2, after@.len() as int);
                            assert(tail =~= t@.subrange(i + s + 2 + end + 2, n as int));
                            assert(out@ =~= out0 + rest@.subrange(0, s as int) + key_display(
                                key_for_name(after@.subrange(0, end as int), *kc),
                            ));
                        }
                        i = i + s + 2 + end + 2;
                    },
                }
            },
        }
    }
}

/// The help text: every `{{action}}` of the template replaced by the key bound
/// to that action, and the lines that hold a `|` laid out in two columns, the
/// part before the `|` padded to the widest such part.
pub fn render_help(kc: &KeyConfig, tmpl: &str) -> (r: String)
    ensures
        r@ == help_text(*kc, tmpl@),
{
    let t = chars_of(tmpl);
    let sub = substitute_chars(t.as_slice(), kc);
    let lines = lines_chars(sub.as_slice());
    let ghost ls = lines_of(substitute(tmpl@, *kc));
    let mut w: usize = 0;
    let mut k: usize = 0;
    while k < lines.len()
        invariant
            k <= lines@.len(),
            lines@.len() == ls.len(),
            forall|m: int| 0 <= m < lines@.len() ==> #[trigger] lines@[m]@ == ls[m],
            w == max_key_width(ls.subrange(0, k as int)),
        decreases lines.len() - k,
    {
        let l = &lines[k];
        let kw: usize = match find_char_in(l.as_slice(), '|') {
            Some(p) => {
                let head = slice_range(l.as_slice(), 0, p);
                byte_len_chars(head.as_slice())
            },
            None => 0,
        };
        proof {
            assert(lines@[k as int]@ == ls[k as int]);
            assert(ls.subrange(0, k + 1).drop_last() =~= ls.subrange(0, k as int));
        }
        if kw > w {
            w = kw;
        }
        k += 1;
    }
    assert(ls.subrange(0, ls.len() as int) =~= ls);
    let ghost rendered = ls.map_values(|l: Seq<char>| render_line(l, w as nat));
    let mut out: Vec<char> = Vec::new();
    let mut k: usize = 0;
    while k < lines.len()
        invariant
            k <= lines@.len(),
            lines@.len() == ls.len(),
            rendered.len() == ls.len(),
            forall|m: int| 0 <= m < ls.len() ==> #[trigger] rendered[m] == render_line(ls[m], w as nat),
            forall|m: int| 0 <= m < lines@.len() ==> #[trigger] lines@[m]@ == ls[m],
            out@ == join_lines(rendered.subrange(0, k as int)),
        decreases lines.len() - k,
    {
        let l = &lines[k];
        let ln = l.len();
        let ghost before = out@;
        if k > 0 {
            out.push('\n');
        }
        match find_char_in(l.as_slice(), '|') {
            Some(p) => {
                let head = slice_range(l.as_slice(), 0, p);
                let tail = slice_range(l.as_slice(), p + 1, ln);
                push_all(&mut out, head.as_slice());
                let mut pad = head.len();
                while pad < w
                    invariant
                        head@.len() <= pad <= w || pad == head@.len(),
                        out@ == (if k > 0 { before + seq!['\n'] } else { before }) + head@ + Seq::new(
                            (pad - head@.len()) as nat,
                            |i: int| ' ',
                        ),
                    decreases w - pad,
                {
                    out.push(' ');
                    pad += 1;
                    proof {
                        assert(out@ =~= (if k > 0 { before + seq!['\n'] } else { before }) + head@
                            + Seq::new((pad - head@.len()) as nat, |i: int| ' '));
                    }
                }
                out.push(' ');
                out.push(' ');
                push_all(&mut out, tail.as_slice());
                proof {
                    assert(lines@[k as int]@ == ls[k as int]);
                    let pr = if k > 0 { before + seq!['\n'] } else { before };
                    if head@.len() < w {
                        assert(out@ =~= pr + render_line(ls[k as int], w as nat));
                    } else {
                        assert(out@ =~= pr + render_line(ls[k as int], w as nat));
                    }
                }
            },
            None => {
                push_all(&mut out, l.as_slice());
                proof {
                    assert(lines@[k as int]@ == ls[k as int]);
                }
            },
        }
        proof {
            let sub = rendered.subrange(0, k + 1);
            assert(sub.drop_last() =~= rendered.subrange(0, k as int));
            if k == 0 {
                assert(out@ =~= join_lines(sub));
            } else {
                assert(out@ =~= join_lines(sub));
            }
        }
        k += 1;
    }
    assert(rendered.subrange(0, ls.len() as int) =~= rendered);
    string_of(out.as_slice())
}

/// The help template: `{{action}}` stands for the key bound to an action, and
/// `|` separates the key column from the description.
pub const HELP_TEMPLATE: &'static str = "Keybindings:\n\
     \n\
     \x20   <Esc>:|- Exit current action\n\
     \x20   {{next_tab}}: Next view|- Go to next view\n\
     \x20   {{previous_tab}}: Previous view|- Go to previous view\n\
     \n\
     Keybindings for task report:\n\
     \n\
     \x20   {{filter}}: task {string}|- Filter task report\n\
     \x20   {{reset_filter}}: reset filter|- Reset filter to default\n\
     \x20   {{add}}: task add {string}|- Add new task\n\
     \x20   {{done}}: task {selected} done|- Mark task as done\n\
     \x20   {{edit}}: task {selected} edit|- Open selected task in editor\n\
     \x20   {{duplicate}}: task {selected} duplicate|- Duplicate tasks\n\
     \x20   {{down}}: {selected+=1}|- Move down in task report\n\
     \x20   {{up}}: {selected-=1}|- Move up in task report\n\
     \x20   {{page_down}}: {selected+=pageheight}|- Move page down in task report\n\
     \x20   {{page_up}}: {selected-=pageheight}|- Move page up in task report\n\
     \x20   {{go_to_top}}: {selected=first}|- Go to top\n\
     \x20   {{go_to_bottom}}: {selected=last}|- Go to bottom\n\
     \x20   {{log}}: task log {string}|- Log new task\n\
     \x20   {{modify}}: task {selected} modify {string}|- Modify selected task\n\
     \x20   {{quit}}: exit|- Quit\n\
     \x20   {{refresh}}: refresh|- Refresh the task report\n\
     \x20   {{start_stop}}: task {selected} start/stop|- Toggle start and stop\n\
     \x20   {{quick_tag}}: task {selected} +{tag}/-{tag}|- Toggle the quick tag\n\
     \x20   {{undo}}: task undo|- Undo\n\
     \x20   {{select}}: {toggle mark on selected}|- Toggle mark on selected\n\
     \x20   {{select_all}}: {toggle marks on all tasks}|- Toggle marks on all tasks in current filter report\n\
     \x20   {{delete}}: task {selected} delete|- Delete\n\
     \x20   {{zoom}}: toggle task info|- Toggle task info view\n\
     \x20   {{annotate}}: task {selected} annotate {string}|- Annotate current task\n\
     \x20   {{scroll_down}}: scroll down task details|- Scroll task details view down one line\n\
     \x20   {{scroll_up}}: scroll up task details|- Scroll task details view up one line\n\
     \x20   {{shell}}: {string}|- Custom shell command\n\
     \x20   {{shortcut1}}-{{shortcut9}}: {string}|- Run user defined shortcuts\n\
     \x20   {{jump}}: {task id}|- Jump to task id\n\
     \x20   {{context_menu}}: context switcher menu|- Open context switcher menu\n\
     \x20   {{help}}: help|- Help menu\n\
     \x20   {{priority_h}}: priority H|- Set priority to High\n\
     \x20   {{priority_m}}: priority M|- Set priority to Medium\n\
     \x20   {{priority_l}}: priority L|- Set priority to Low\n\
     \x20   {{priority_n}}: priority N|- Remove priority\n\
     \x20   {{priority_up}}: priority up|- Increase priority\n\
     \x20   {{priority_down}}: priority down|- Decrease priority\n";

impl Help {
    /// The help screen for the key configuration `keyconfig`.
    pub fn new(keyconfig: &KeyConfig) -> (r: Self)
        ensures
            r.title@ == "Help"@,
            r.scroll == 0,
            r.text@ == help_text(*keyconfig, HELP_TEMPLATE@),
            r.text_height == lines_of(r.text@).len(),
    {
        let text = render_help(keyconfig, HELP_TEMPLATE);
        let tv = chars_of(text.as_str());
        let lines = lines_chars(tv.as_slice());
        Help { title: String::from_str("Help"), scroll: 0, text_height: lines.len(), text }
    }
}


/// The number that the digits of `n` spell is `n`.
proof fn lemma_decimal_reads_back(n: nat)
    ensures
        decimal_value(decimal_of(n)) == n,
        all_digits(decimal_of(n)),
        decimal_of(n).len() > 0,
        decimal_of(n)[0] != '+',
        is_ascii_text(decimal_of(n)),
    decreases n,
{
    if n >= 10 {
        lemma_decimal_reads_back(n / 10);
        let d = decimal_of(n);
        assert(d.drop_last() =~= decimal_of(n / 10));
        assert(d[0] == decimal_of(n / 10)[0]);
        assert forall|i: int| 0 <= i < d.len() implies is_digit(#[trigger] d[i]) by {
            if i < d.len() - 1 {
                assert(d[i] == decimal_of(n / 10)[i]);
            }
        }
        assert forall|i: int| 0 <= i < d.len() implies (#[trigger] d[i] as u32) < 128 by {
            assert(is_digit(d[i]));
        }
        assert(d.last() == digit_char(n % 10));
        assert(digit_value(digit_char(n % 10)) == n % 10);
        assert(decimal_value(d) == decimal_value(d.drop_last()) * 10 + digit_value(d.last()));
        assert(n == (n / 10) * 10 + n % 10);
    } else {
        let d = decimal_of(n);
        assert(is_digit(d[0]));
        assert(d.drop_last() =~= Seq::<char>::empty());
        assert(digit_value(digit_char(n)) == n);
        assert(decimal_value(d) == decimal_value(d.drop_last()) * 10 + digit_value(d.last()));
    }
}

proof fn lemma_shown_esc()
    ensures
        key_value_lowered(key_display(KeyCode::Esc)) == Some(KeyCode::Esc),
{
    let k = KeyCode::Esc;
    reveal_strlit("<Esc>");
    reveal_strlit("Esc");
    reveal_strlit("backspace");
    reveal_strlit("backtab");
    reveal_strlit("bs");
    reveal_strlit("cr");
    reveal_strlit("del");
    reveal_strlit("delete");
    reveal_strlit("down");
    reveal_strlit("end");
    reveal_strlit("enter");
    reveal_strlit("esc");
    reveal_strlit("escape");
    reveal_strlit("home");
    reveal_strlit("ins");
    reveal_strlit("insert");
    reveal_strlit("left");
    reveal_strlit("nop");
    reveal_strlit("null");
    reveal_strlit("pagedown");
    reveal_strlit("pageup");
    reveal_strlit("pgdn");
    reveal_strlit("pgup");
    reveal_strlit("return");
    reveal_strlit("right");
    reveal_strlit("space");
    reveal_strlit("tab");
    reveal_strlit("up");
    assert(key_display(k) =~= bracketed("Esc"@));
    lemma_bracketed_inner("Esc"@);
    assert(ascii_lower("Esc"@) =~= "esc"@);
    lemma_find_char_none("esc"@, '-');
}

proof fn lemma_shown_tab()
    ensures
        key_value_lowered(key_display(KeyCode::Tab)) == Some(KeyCode::Tab),
{
    let k = KeyCode::Tab;
    reveal_strlit("<Tab>");
    reveal_strlit("Tab");
    reveal_strlit("backspace");
    reveal_strlit("backtab");
    reveal_strlit("bs");
    reveal_strlit("cr");
    reveal_strlit("del");
    reveal_strlit("delete");
    reveal_strlit("down");
    reveal_strlit("end");
    reveal_strlit("enter");
    reveal_strlit("esc");
    reveal_strlit("escape");
    reveal_strlit("home");
    reveal_strlit("ins");
    reveal_strlit("insert");
    reveal_strlit("left");
    reveal_strlit("nop");
    reveal_strlit("null");
    reveal_strlit("pagedown");
    reveal_strlit("pageup");
    reveal_strlit("pgdn");
    reveal_strlit("pgup");
    reveal_strlit("return");
    reveal_strlit("right");
    reveal_strlit("space");
    reveal_strlit("tab");
    reveal_strlit("up");
    assert(key_display(k) =~= bracketed("Tab"@));
    lemma_bracketed_inner("Tab"@);
    assert(ascii_lower("Tab"@) =~= "tab"@);
    lemma_find_char_none("tab"@, '-');
    assert("tab"@ != "esc"@) by {
        assert("tab"@[0] != "esc"@[0]);
    }
    assert("tab"@ != "escape"@);
    assert("tab"@ != "enter"@);
    assert("tab"@ != "cr"@);
    assert("tab"@ != "return"@);
}

proof fn lemma_shown_backspace()
    ensures
        key_value_lowered(key_display(KeyCode::Backspace)) == Some(KeyCode::Backspace),
{
    let k = KeyCode::Backspace;
    reveal_strlit("<BS>");
    reveal_strlit("BS");
    reveal_strlit("backspace");
    reveal_strlit("backtab");
    reveal_strlit("bs");
    reveal_strlit("cr");
    reveal_strlit("del");
    reveal_strlit("delete");
    reveal_strlit("down");
    reveal_strlit("end");
    reveal_strlit("enter");
    reveal_strlit("esc");
    reveal_strlit("escape");
    reveal_strlit("home");
    reveal_strlit("ins");
    reveal_strlit("insert");
    reveal_strlit("left");
    reveal_strlit("nop");
    reveal_strlit("null");
    reveal_strlit("pagedown");
    reveal_strlit("pageup");
    reveal_strlit("pgdn");
    reveal_strlit("pgup");
    reveal_strlit("return");
    reveal_strlit("right");
    reveal_strlit("space");
    reveal_strlit("tab");
    reveal_strlit("up");
    assert(key_display(k) =~= bracketed("BS"@));
    lemma_bracketed_inner("BS"@);
    assert(ascii_lower("BS"@) =~= "bs"@);
    lemma_find_char_none("bs"@, '-');
    assert("bs"@ != "esc"@);
    assert("bs"@ != "escape"@);
    assert("bs"@ != "enter"@);
    assert("bs"@ != "cr"@) by {
        assert("bs"@[0] != "cr"@[0]);
    }
    assert("bs"@ != "return"@);
    assert("bs"@ != "tab"@);
    assert("bs"@ != "backtab"@);
}

proof fn lemma_shown_delete()
    ensures
        key_value_lowered(key_display(KeyCode::Delete)) == Some(KeyCode::Delete),
{
    let k = KeyCode::Delete;
    reveal_strlit("<Del>");
    reveal_strlit("Del");
    reveal_strlit("backspace");
    reveal_strlit("backtab");
    reveal_strlit("bs");
    reveal_strlit("cr");
    reveal_strlit("del");
    reveal_strlit("delete");
    reveal_strlit("down");
    reveal_strlit("end");
    reveal_strlit("enter");
    reveal_strlit("esc");
    reveal_strlit("escape");
    reveal_strlit("home");
    reveal_strlit("ins");
    reveal_strlit("insert");
    reveal_strlit("left");
    reveal_strlit("nop");
    reveal_strlit("null");
    reveal_strlit("pagedown");
    reveal_strlit("pageup");
    reveal_strlit("pgdn");
    reveal_strlit("pgup");
    reveal_strlit("return");
    reveal_strlit("right");
    reveal_strlit("space");
    reveal_strlit("tab");
    reveal_strlit("up");
    assert(key_display(k) =~= bracketed("Del"@));
    lemma_bracketed_inner("Del"@);
    assert(ascii_lower("Del"@) =~= "del"@);
    lemma_find_char_none("del"@, '-');
    assert("del"@ != "esc"@) by {
        assert("del"@[0] != "esc"@[0]);
    }
    assert("del"@ != "escape"@);
    assert("del"@ != "enter"@);
    assert("del"@ != "cr"@);
    assert("del"@ != "return"@);
    assert("del"@ != "tab"@) by {
        assert("del"@[0] != "tab"@[0]);
    }
    assert("del"@ != "backtab"@);
    assert("del"@ != "bs"@);
    assert("del"@ != "backspace"@);
}

proof fn lemma_shown_insert()
    ensures
        key_value_lowered(key_display(KeyCode::Insert)) == Some(KeyCode::Insert),
{
    let k = KeyCode::Insert;
    reveal_strlit("<Ins>");
    reveal_strlit("Ins");
    reveal_strlit("backspace");
    reveal_strlit("backtab");
    reveal_strlit("bs");
    reveal_strlit("cr");
    reveal_strlit("del");
    reveal_strlit("delete");
    reveal_strlit("down");
    reveal_strlit("end");
    reveal_strlit("enter");
    reveal_strlit("esc");
    reveal_strlit("escape");
    reveal_strlit("home");
    reveal_strlit("ins");
    reveal_strlit("insert");
    reveal_strlit("left");
    reveal_strlit("nop");
    reveal_strlit("null");
    reveal_strlit("pagedown");
    reveal_strlit("pageup");
    reveal_strlit("pgdn");
    reveal_strlit("pgup");
    reveal_strlit("return");
    reveal_strlit("right");
    reveal_strlit("space");
    reveal_strlit("tab");
    reveal_strlit("up");
    assert(key_display(k) =~= bracketed("Ins"@));
    lemma_bracketed_inner("Ins"@);
    assert(ascii_lower("Ins"@) =~= "ins"@);
    lemma_find_char_none("ins"@, '-');
    assert("ins"@ != "esc"@) by {
        assert("ins"@[0] != "esc"@[0]);
    }
    assert("ins"@ != "escape"@);
    assert("ins"@ != "enter"@);
    assert("ins"@ != "cr"@);
    assert("ins"@ != "return"@);
    assert("ins"@ != "tab"@) by {
        assert("ins"@[0] != "tab"@[0]);
    }
    assert("ins"@ != "backtab"@);
    assert("ins"@ != "bs"@);
    assert("ins"@ != "backspace"@);
    assert("ins"@ != "del"@) by {
        assert("ins"@[0] != "del"@[0]);
    }
    assert("ins"@ != "delete"@);
}

proof fn lemma_shown_up()
    ensures
        key_value_lowered(key_display(KeyCode::Up)) == Some(KeyCode::Up),
{
    let k = KeyCode::Up;
    reveal_strlit("<Up>");
    reveal_strlit("Up");
    reveal_strlit("backspace");
    reveal_strlit("backtab");
    reveal_strlit("bs");
    reveal_strlit("cr");
    reveal_strlit("del");
    reveal_strlit("delete");
    reveal_strlit("down");
    reveal_strlit("end");
    reveal_strlit("enter");
    reveal_strlit("esc");
    reveal_strlit("escape");
    reveal_strlit("home");
    reveal_strlit("ins");
    reveal_strlit("insert");
    reveal_strlit("left");
    reveal_strlit("nop");
    reveal_strlit("null");
    reveal_strlit("pagedown");
    reveal_strlit("pageup");
    reveal_strlit("pgdn");
    reveal_strlit("pgup");
    reveal_strlit("return");
    reveal_strlit("right");
    reveal_strlit("space");
    reveal_strlit("tab");
    reveal_strlit("up");
    assert(key_display(k) =~= bracketed("Up"@));
    lemma_bracketed_inner("Up"@);
    assert(ascii_lower("Up"@) =~= "up"@);
    lemma_find_char_none("up"@, '-');
    assert("up"@ != "esc"@);
    assert("up"@ != "escape"@);
    assert("up"@ != "enter"@);
    assert("up"@ != "cr"@) by {
        assert("up"@[0] != "cr"@[0]);
    }
    assert("up"@ != "return"@);
    assert("up"@ != "tab"@);
    assert("up"@ != "backtab"@);
    assert("up"@ != "bs"@) by {
        assert("up"@[0] != "bs"@[0]);
    }
    assert("up"@ != "backspace"@);
    assert("up"@ != "del"@);
    assert("up"@ != "delete"@);
    assert("up"@ != "ins"@);
    assert("up"@ != "insert"@);
    assert("up"@ != "space"@);
}

proof fn lemma_shown_down()
    ensures
        key_value_lowered(key_display(KeyCode::Down)) == Some(KeyCode::Down),
{
    let k = KeyCode::Down;
    reveal_strlit("<Down>");
    reveal_strlit("Down");
    reveal_strlit("backspace");
    reveal_strlit("backtab");
    reveal_strlit("bs");
    reveal_strlit("cr");
    reveal_strlit("del");
    reveal_strlit("delete");
    reveal_strlit("down");
    reveal_strlit("end");
    reveal_strlit("enter");
    reveal_strlit("esc");
    reveal_strlit("escape");
    reveal_strlit("home");
    reveal_strlit("ins");
    reveal_strlit("insert");
    reveal_strlit("left");
    reveal_strlit("nop");
    reveal_strlit("null");
    reveal_strlit("pagedown");
    reveal_strlit("pageup");
    reveal_strlit("pgdn");
    reveal_strlit("pgup");
    reveal_strlit("return");
    reveal_strlit("right");
    reveal_strlit("space");
    reveal_strlit("tab");
    reveal_strlit("up");
    assert(key_display(k) =~= bracketed("Down"@));
    lemma_bracketed_inner("Down"@);
    assert(ascii_lower("Down"@) =~= "down"@);
    lemma_find_char_none("down"@, '-');
    assert("down"@ != "esc"@);
    assert("down"@ != "escape"@);
    assert("down"@ != "enter"@);
    assert("down"@ != "cr"@);
    assert("down"@ != "return"@);
    assert("down"@ != "tab"@);
    assert("down"@ != "backtab"@);
    assert("down"@ != "bs"@);
    assert("down"@ != "backspace"@);
    assert("down"@ != "del"@);
    assert("down"@ != "delete"@);
    assert("down"@ != "ins"@);
    assert("down"@ != "insert"@);
    assert("down"@ != "space"@);
    assert("down"@ != "up"@);
}

proof fn lemma_shown_left()
    ensures
        key_value_lowered(key_display(KeyCode::Left)) == Some(KeyCode::Left),
{
    let k = KeyCode::Left;
    reveal_strlit("<Left>");
    reveal_strlit("Left");
    reveal_strlit("backspace");
    reveal_strlit("backtab");
    reveal_strlit("bs");
    reveal_strlit("cr");
    reveal_strlit("del");
    reveal_strlit("delete");
    reveal_strlit("down");
    reveal_strlit("end");
    reveal_strlit("enter");
    reveal_strlit("esc");
    reveal_strlit("escape");
    reveal_strlit("home");
    reveal_strlit("ins");
    reveal_strlit("insert");
    reveal_strlit("left");
    reveal_strlit("nop");
    reveal_strlit("null");
    reveal_strlit("pagedown");
    reveal_strlit("pageup");
    reveal_strlit("pgdn");
    reveal_strlit("pgup");
    reveal_strlit("return");
    reveal_strlit("right");
    reveal_strlit("space");
    reveal_strlit("tab");
    reveal_strlit("up");
    assert(key_display(k) =~= bracketed("Left"@));
    lemma_bracketed_inner("Left"@);
    assert(ascii_lower("Left"@) =~= "left"@);
    lemma_find_char_none("left"@, '-');
    assert("left"@ != "esc"@);
    assert("left"@ != "escape"@);
    assert("left"@ != "enter"@);
    assert("left"@ != "cr"@);
    assert("left"@ != "return"@);
    assert("left"@ != "tab"@);
    assert("left"@ != "backtab"@);
    assert("left"@ != "bs"@);
    assert("left"@ != "backspace"@);
    assert("left"@ != "del"@);
    assert("left"@ != "delete"@);
    assert("left"@ != "ins"@);
    assert("left"@ != "insert"@);
    assert("left"@ != "space"@);
    assert("left"@ != "up"@);
    assert("left"@ != "down"@) by {
        assert("left"@[0] != "down"@[0]);
    }
}

proof fn lemma_shown_right()
    ensures
        key_value_lowered(key_display(KeyCode::Right)) == Some(KeyCode::Right),
{
    let k = KeyCode::Right;
    reveal_strlit("<Right>");
    reveal_strlit("Right");
    reveal_strlit("backspace");
    reveal_strlit("backtab");
    reveal_strlit("bs");
    reveal_strlit("cr");
    reveal_strlit("del");
    reveal_strlit("delete");
    reveal_strlit("down");
    reveal_strlit("end");
    reveal_strlit("enter");
    reveal_strlit("esc");
    reveal_strlit("escape");
    reveal_strlit("home");
    reveal_strlit("ins");
    reveal_strlit("insert");
    reveal_strlit("left");
    reveal_strlit("nop");
    reveal_strlit("null");
    reveal_strlit("pagedown");
    reveal_strlit("pageup");
    reveal_strlit("pgdn");
    reveal_strlit("pgup");
    reveal_strlit("return");
    reveal_strlit("right");
    reveal_strlit("space");
    reveal_strlit("tab");
    reveal_strlit("up");
    assert(key_display(k) =~= bracketed("Right"@));
    lemma_bracketed_inner("Right"@);
    assert(ascii_lower("Right"@) =~= "right"@);
    lemma_find_char_none("right"@, '-');
    assert("right"@ != "esc"@);
    assert("right"@ != "escape"@);
    assert("right"@ != "enter"@) by {
        assert("right"@[0] != "enter"@[0]);
    }
    assert("right"@ != "cr"@);
    assert("right"@ != "return"@);
    assert("right"@ != "tab"@);
    assert("right"@ != "backtab"@);
    assert("right"@ != "bs"@);
    assert("right"@ != "backspace"@);
    assert("right"@ != "del"@);
    assert("right"@ != "delete"@);
    assert("right"@ != "ins"@);
    assert("right"@ != "insert"@);
    assert("right"@ != "space"@) by {
        assert("right"@[0] != "space"@[0]);
    }
    assert("right"@ != "up"@);
    assert("right"@ != "down"@);
    assert("right"@ != "left"@);
}

proof fn lemma_shown_page_up()
    ensures
        key_value_lowered(key_display(KeyCode::PageUp)) == Some(KeyCode::PageUp),
{
    let k = KeyCode::PageUp;
    reveal_strlit("<PageUp>");
    reveal_strlit("PageUp");
    reveal_strlit("backspace");
    reveal_strlit("backtab");
    reveal_strlit("bs");
    reveal_strlit("cr");
    reveal_strlit("del");
    reveal_strlit("delete");
    reveal_strlit("down");
    reveal_strlit("end");
    reveal_strlit("enter");
    reveal_strlit("esc");
    reveal_strlit("escape");
    reveal_strlit("home");
    reveal_strlit("ins");
    reveal_strlit("insert");
    reveal_strlit("left");
    reveal_strlit("nop");
    reveal_strlit("null");
    reveal_strlit("pagedown");
    reveal_strlit("pageup");
    reveal_strlit("pgdn");
    reveal_strlit("pgup");
    reveal_strlit("return");
    reveal_strlit("right");
    reveal_strlit("space");
    reveal_strlit("tab");
    reveal_strlit("up");
    assert(key_display(k) =~= bracketed("PageUp"@));
    lemma_bracketed_inner("PageUp"@);
    assert(ascii_lower("PageUp"@) =~= "pageup"@);
    lemma_find_char_none("pageup"@, '-');
    assert("pageup"@ != "esc"@);
    assert("pageup"@ != "escape"@) by {
        assert("pageup"@[0] != "escape"@[0]);
    }
    assert("pageup"@ != "enter"@);
    assert("pageup"@ != "cr"@);
    assert("pageup"@ != "return"@) by {
        assert("pageup"@[0] != "return"@[0]);
    }
    assert("pageup"@ != "tab"@);
    assert("pageup"@ != "backtab"@);
    assert("pageup"@ != "bs"@);
    assert("pageup"@ != "backspace"@);
    assert("pageup"@ != "del"@);
    assert("pageup"@ != "delete"@) by {
        assert("pageup"@[0] != "delete"@[0]);
    }
    assert("pageup"@ != "ins"@);
    assert("pageup"@ != "insert"@) by {
        assert("pageup"@[0] != "insert"@[0]);
    }
    assert("pageup"@ != "space"@);
    assert("pageup"@ != "up"@);
    assert("pageup"@ != "down"@);
    assert("pageup"@ != "left"@);
    assert("pageup"@ != "right"@);
}

proof fn lemma_shown_page_down()
    ensures
        key_value_lowered(key_display(KeyCode::PageDown)) == Some(KeyCode::PageDown),
{
    let k = KeyCode::PageDown;
    reveal_strlit("<PageDown>");
    reveal_strlit("PageDown");
    reveal_strlit("backspace");
    reveal_strlit("backtab");
    reveal_strlit("bs");
    reveal_strlit("cr");
    reveal_strlit("del");
    reveal_strlit("delete");
    reveal_strlit("down");
    reveal_strlit("end");
    reveal_strlit("enter");
    reveal_strlit("esc");
    reveal_strlit("escape");
    reveal_strlit("home");
    reveal_strlit("ins");
    reveal_strlit("insert");
    reveal_strlit("left");
    reveal_strlit("nop");
    reveal_strlit("null");
    reveal_strlit("pagedown");
    reveal_strlit("pageup");
    reveal_strlit("pgdn");
    reveal_strlit("pgup");
    reveal_strlit("return");
    reveal_strlit("right");
    reveal_strlit("space");
    reveal_strlit("tab");
    reveal_strlit("up");
    assert(key_display(k) =~= bracketed("PageDown"@));
    lemma_bracketed_inner("PageDown"@);
    assert(ascii_lower("PageDown"@) =~= "pagedown"@);
    lemma_find_char_none("pagedown"@, '-');
    assert("pagedown"@ != "esc"@);
    assert("pagedown"@ != "escape"@);
    assert("pagedown"@ != "enter"@);
    assert("pagedown"@ != "cr"@);
    assert("pagedown"@ != "return"@);
    assert("pagedown"@ != "tab"@);
    assert("pagedown"@ != "backtab"@);
    assert("pagedown"@ != "bs"@);
    assert("pagedown"@ != "backspace"@);
    assert("pagedown"@ != "del"@);
    assert("pagedown"@ != "delete"@);
    assert("pagedown"@ != "ins"@);
    assert("pagedown"@ != "insert"@);
    assert("pagedown"@ != "space"@);
    assert("pagedown"@ != "up"@);
    assert("pagedown"@ != "down"@);
    assert("pagedown"@ != "left"@);
    assert("pagedown"@ != "right"@);
    assert("pagedown"@ != "pageup"@);
    assert("pagedown"@ != "pgup"@);
}

proof fn lemma_shown_home()
    ensures
        key_value_lowered(key_display(KeyCode::Home)) == Some(KeyCode::Home),
{
    let k = KeyCode::Home;
    reveal_strlit("<Home>");
    reveal_strlit("Home");
    reveal_strlit("backspace");
    reveal_strlit("backtab");
    reveal_strlit("bs");
    reveal_strlit("cr");
    reveal_strlit("del");
    reveal_strlit("delete");
    reveal_strlit("down");
    reveal_strlit("end");
    reveal_strlit("enter");
    reveal_strlit("esc");
    reveal_strlit("escape");
    reveal_strlit("home");
    reveal_strlit("ins");
    reveal_strlit("insert");
    reveal_strlit("left");
    reveal_strlit("nop");
    reveal_strlit("null");
    reveal_strlit("pagedown");
    reveal_strlit("pageup");
    reveal_strlit("pgdn");
    reveal_strlit("pgup");
    reveal_strlit("return");
    reveal_strlit("right");
    reveal_strlit("space");
    reveal_strlit("tab");
    reveal_strlit("up");
    assert(key_display(k) =~= bracketed("Home"@));
    lemma_bracketed_inner("Home"@);
    assert(ascii_lower("Home"@) =~= "home"@);
    lemma_find_char_none("home"@, '-');
    assert("home"@ != "esc"@);
    assert("home"@ != "escape"@);
    assert("home"@ != "enter"@);
    assert("home"@ != "cr"@);
    assert("home"@ != "return"@);
    assert("home"@ != "tab"@);
    assert("home"@ != "backtab"@);
    assert("home"@ != "bs"@);
    assert("home"@ != "backspace"@);
    assert("home"@ != "del"@);
    assert("home"@ != "delete"@);
    assert("home"@ != "ins"@);
    assert("home"@ != "insert"@);
    assert("home"@ != "space"@);
    assert("home"@ != "up"@);
    assert("home"@ != "down"@) by {
        assert("home"@[0] != "down"@[0]);
    }
    assert("home"@ != "left"@) by {
        assert("home"@[0] != "left"@[0]);
    }
    assert("home"@ != "right"@);
    assert("home"@ != "pageup"@);
    assert("home"@ != "pgup"@) by {
        assert("home"@[0] != "pgup"@[0]);
    }
    assert("home"@ != "pagedown"@);
    assert("home"@ != "pgdn"@) by {
        assert("home"@[0] != "pgdn"@[0]);
    }
}

proof fn lemma_shown_end()
    ensures
        key_value_lowered(key_display(KeyCode::End)) == Some(KeyCode::End),
{
    let k = KeyCode::End;
    reveal_strlit("<End>");
    reveal_strlit("End");
    reveal_strlit("backspace");
    reveal_strlit("backtab");
    reveal_strlit("bs");
    reveal_strlit("cr");
    reveal_strlit("del");
    reveal_strlit("delete");
    reveal_strlit("down");
    reveal_strlit("end");
    reveal_strlit("enter");
    reveal_strlit("esc");
    reveal_strlit("escape");
    reveal_strlit("home");
    reveal_strlit("ins");
    reveal_strlit("insert");
    reveal_strlit("left");
    reveal_strlit("nop");
    reveal_strlit("null");
    reveal_strlit("pagedown");
    reveal_strlit("pageup");
    reveal_strlit("pgdn");
    reveal_strlit("pgup");
    reveal_strlit("return");
    reveal_strlit("right");
    reveal_strlit("space");
    reveal_strlit("tab");
    reveal_strlit("up");
    assert(key_display(k) =~= bracketed("End"@));
    lemma_bracketed_inner("End"@);
    assert(ascii_lower("End"@) =~= "end"@);
    lemma_find_char_none("end"@, '-');
    assert("end"@ != "esc"@) by {
        assert("end"@[1] != "esc"@[1]);
    }
    assert("end"@ != "escape"@);
    assert("end"@ != "enter"@);
    assert("end"@ != "cr"@);
    assert("end"@ != "return"@);
    assert("end"@ != "tab"@) by {
        assert("end"@[0] != "tab"@[0]);
    }
    assert("end"@ != "backtab"@);
    assert("end"@ != "bs"@);
    assert("end"@ != "backspace"@);
    assert("end"@ != "del"@) by {
        assert("end"@[0] != "del"@[0]);
    }
    assert("end"@ != "delete"@);
    assert("end"@ != "ins"@) by {
        assert("end"@[0] != "ins"@[0]);
    }
    assert("end"@ != "insert"@);
    assert("end"@ != "space"@);
    assert("end"@ != "up"@);
    assert("end"@ != "down"@);
    assert("end"@ != "left"@);
    assert("end"@ != "right"@);
    assert("end"@ != "pageup"@);
    assert("end"@ != "pgup"@);
    assert("end"@ != "pagedown"@);
    assert("end"@ != "pgdn"@);
    assert("end"@ != "home"@);
}

proof fn lemma_shown_null()
    ensures
        key_value_lowered(key_display(KeyCode::Null)) == Some(KeyCode::Null),
{
    let k = KeyCode::Null;
    reveal_strlit("<Null>");
    reveal_strlit("Null");
    reveal_strlit("backspace");
    reveal_strlit("backtab");
    reveal_strlit("bs");
    reveal_strlit("cr");
    reveal_strlit("del");
    reveal_strlit("delete");
    reveal_strlit("down");
    reveal_strlit("end");
    reveal_strlit("enter");
    reveal_strlit("esc");
    reveal_strlit("escape");
    reveal_strlit("home");
    reveal_strlit("ins");
    reveal_strlit("insert");
    reveal_strlit("left");
    reveal_strlit("nop");
    reveal_strlit("null");
    reveal_strlit("pagedown");
    reveal_strlit("pageup");
    reveal_strlit("pgdn");
    reveal_strlit("pgup");
    reveal_strlit("return");
    reveal_strlit("right");
    reveal_strlit("space");
    reveal_strlit("tab");
    reveal_strlit("up");
    assert(key_display(k) =~= bracketed("Null"@));
    lemma_bracketed_inner("Null"@);
    assert(ascii_lower("Null"@) =~= "null"@);
    lemma_find_char_none("null"@, '-');
    assert("null"@ != "esc"@);
    assert("null"@ != "escape"@);
    assert("null"@ != "enter"@);
    assert("null"@ != "cr"@);
    assert("null"@ != "return"@);
    assert("null"@ != "tab"@);
    assert("null"@ != "backtab"@);
    assert("null"@ != "bs"@);
    assert("null"@ != "backspace"@);
    assert("null"@ != "del"@);
    assert("null"@ != "delete"@);
    assert("null"@ != "ins"@);
    assert("null"@ != "insert"@);
    assert("null"@ != "space"@);
    assert("null"@ != "up"@);
    assert("null"@ != "down"@) by {
        assert("null"@[0] != "down"@[0]);
    }
    assert("null"@ != "left"@) by {
        assert("null"@[0] != "left"@[0]);
    }
    assert("null"@ != "right"@);
    assert("null"@ != "pageup"@);
    assert("null"@ != "pgup"@) by {
        assert("null"@[0] != "pgup"@[0]);
    }
    assert("null"@ != "pagedown"@);
    assert("null"@ != "pgdn"@) by {
        assert("null"@[0] != "pgdn"@[0]);
    }
    assert("null"@ != "home"@) by {
        assert("null"@[0] != "home"@[0]);
    }
    assert("null"@ != "end"@);
}

proof fn lemma_shown_nop()
    ensures
        key_value_lowered(key_display(KeyCode::Nop)) == Some(KeyCode::Nop),
{
    let k = KeyCode::Nop;
    reveal_strlit("<Nop>");
    reveal_strlit("Nop");
    reveal_strlit("backspace");
    reveal_strlit("backtab");
    reveal_strlit("bs");
    reveal_strlit("cr");
    reveal_strlit("del");
    reveal_strlit("delete");
    reveal_strlit("down");
    reveal_strlit("end");
    reveal_strlit("enter");
    reveal_strlit("esc");
    reveal_strlit("escape");
    reveal_strlit("home");
    reveal_strlit("ins");
    reveal_strlit("insert");
    reveal_strlit("left");
    reveal_strlit("nop");
    reveal_strlit("null");
    reveal_strlit("pagedown");
    reveal_strlit("pageup");
    reveal_strlit("pgdn");
    reveal_strlit("pgup");
    reveal_strlit("return");
    reveal_strlit("right");
    reveal_strlit("space");
    reveal_strlit("tab");
    reveal_strlit("up");
    assert(key_display(k) =~= bracketed("Nop"@));
    lemma_bracketed_inner("Nop"@);
    assert(ascii_lower("Nop"@) =~= "nop"@);
    lemma_find_char_none("nop"@, '-');
    assert("nop"@ != "esc"@) by {
        assert("nop"@[0] != "esc"@[0]);
    }
    assert("nop"@ != "escape"@);
    assert("nop"@ != "enter"@);
    assert("nop"@ != "cr"@);
    assert("nop"@ != "return"@);
    assert("nop"@ != "tab"@) by {
        assert("nop"@[0] != "tab"@[0]);
    }
    assert("nop"@ != "backtab"@);
    assert("nop"@ != "bs"@);
    assert("nop"@ != "backspace"@);
    assert("nop"@ != "del"@) by {
        assert("nop"@[0] != "del"@[0]);
    }
    assert("nop"@ != "delete"@);
    assert("nop"@ != "ins"@) by {
        assert("nop"@[0] != "ins"@[0]);
    }
    assert("nop"@ != "insert"@);
    assert("nop"@ != "space"@);
    assert("nop"@ != "up"@);
    assert("nop"@ != "down"@);
    assert("nop"@ != "left"@);
    assert("nop"@ != "right"@);
    assert("nop"@ != "pageup"@);
    assert("nop"@ != "pgup"@);
    assert("nop"@ != "pagedown"@);
    assert("nop"@ != "pgdn"@);
    assert("nop"@ != "home"@);
    assert("nop"@ != "end"@) by {
        assert("nop"@[0] != "end"@[0]);
    }
    assert("nop"@ != "null"@);
}

proof fn lemma_shown_ctrl_backspace()
    ensures
        key_value_lowered(key_display(KeyCode::CtrlBackspace)) == Some(KeyCode::CtrlBackspace),
{
    let k = KeyCode::CtrlBackspace;
    reveal_strlit("<C-BS>");
    reveal_strlit("C-BS");
    reveal_strlit("backspace");
    reveal_strlit("bs");
    reveal_strlit("c-bs");
    reveal_strlit("del");
    reveal_strlit("delete");
    reveal_strlit("tab");
    assert(key_display(k) =~= bracketed("C-BS"@));
    lemma_bracketed_inner("C-BS"@);
    let l = "c-bs"@;
    assert(ascii_lower("C-BS"@) =~= l);
    lemma_find_char_at(l, '-', 1);
    assert(l.subrange(0, 1) =~= seq!['c']);
    assert(l.subrange(2, l.len() as int) =~= "bs"@);
}

proof fn lemma_shown_ctrl_delete()
    ensures
        key_value_lowered(key_display(KeyCode::CtrlDelete)) == Some(KeyCode::CtrlDelete),
{
    let k = KeyCode::CtrlDelete;
    reveal_strlit("<C-Del>");
    reveal_strlit("C-Del");
    reveal_strlit("backspace");
    reveal_strlit("bs");
    reveal_strlit("c-del");
    reveal_strlit("del");
    reveal_strlit("delete");
    reveal_strlit("tab");
    assert(key_display(k) =~= bracketed("C-Del"@));
    lemma_bracketed_inner("C-Del"@);
    let l = "c-del"@;
    assert(ascii_lower("C-Del"@) =~= l);
    lemma_find_char_at(l, '-', 1);
    assert(l.subrange(0, 1) =~= seq!['c']);
    assert(l.subrange(2, l.len() as int) =~= "del"@);
    assert("del"@ != "backspace"@);
    assert("del"@ != "bs"@);
    assert("del"@ != "delete"@);
}

proof fn lemma_shown_alt_backspace()
    ensures
        key_value_lowered(key_display(KeyCode::AltBackspace)) == Some(KeyCode::AltBackspace),
{
    let k = KeyCode::AltBackspace;
    reveal_strlit("<A-BS>");
    reveal_strlit("A-BS");
    reveal_strlit("a-bs");
    reveal_strlit("backspace");
    reveal_strlit("bs");
    reveal_strlit("del");
    reveal_strlit("delete");
    reveal_strlit("tab");
    assert(key_display(k) =~= bracketed("A-BS"@));
    lemma_bracketed_inner("A-BS"@);
    let l = "a-bs"@;
    assert(ascii_lower("A-BS"@) =~= l);
    lemma_find_char_at(l, '-', 1);
    assert(l.subrange(0, 1) =~= seq!['a']);
    assert(l.subrange(2, l.len() as int) =~= "bs"@);
    assert(seq!['a'] != seq!['c']) by {
        assert(seq!['a'][0] != seq!['c'][0]);
    }
}

proof fn lemma_shown_alt_delete()
    ensures
        key_value_lowered(key_display(KeyCode::AltDelete)) == Some(KeyCode::AltDelete),
{
    let k = KeyCode::AltDelete;
    reveal_strlit("<A-Del>");
    reveal_strlit("A-Del");
    reveal_strlit("a-del");
    reveal_strlit("backspace");
    reveal_strlit("bs");
    reveal_strlit("del");
    reveal_strlit("delete");
    reveal_strlit("tab");
    assert(key_display(k) =~= bracketed("A-Del"@));
    lemma_bracketed_inner("A-Del"@);
    let l = "a-del"@;
    assert(ascii_lower("A-Del"@) =~= l);
    lemma_find_char_at(l, '-', 1);
    assert(l.subrange(0, 1) =~= seq!['a']);
    assert(l.subrange(2, l.len() as int) =~= "del"@);
    assert("del"@ != "backspace"@);
    assert("del"@ != "bs"@);
    assert("del"@ != "delete"@);
    assert(seq!['a'] != seq!['c']) by {
        assert(seq!['a'][0] != seq!['c'][0]);
    }
}

proof fn lemma_shown_back_tab()
    ensures
        key_value_lowered(key_display(KeyCode::BackTab)) == Some(KeyCode::BackTab),
{
    let k = KeyCode::BackTab;
    reveal_strlit("<S-Tab>");
    reveal_strlit("S-Tab");
    reveal_strlit("backspace");
    reveal_strlit("bs");
    reveal_strlit("del");
    reveal_strlit("delete");
    reveal_strlit("s-tab");
    reveal_strlit("tab");
    assert(key_display(k) =~= bracketed("S-Tab"@));
    lemma_bracketed_inner("S-Tab"@);
    let l = "s-tab"@;
    assert(ascii_lower("S-Tab"@) =~= l);
    lemma_find_char_at(l, '-', 1);
    assert(l.subrange(0, 1) =~= seq!['s']);
    assert(l.subrange(2, l.len() as int) =~= "tab"@);
    assert(seq!['s'] != seq!['c']) by {
        assert(seq!['s'][0] != seq!['c'][0]);
    }
    assert(seq!['s'] != seq!['a']) by {
        assert(seq!['s'][0] != seq!['a'][0]);
    }
    assert(seq!['s'] != seq!['m']) by {
        assert(seq!['s'][0] != seq!['m'][0]);
    }
}

proof fn lemma_shown_char(c: char)
    requires
        !is_ws(c) || c == ' ' || c == '\n',
    ensures
        key_value_lowered(key_display(KeyCode::Char(c))) == Some(KeyCode::Char(c)),
{
    let k = KeyCode::Char(c);
        if c == '\n' {
            reveal_strlit("<Enter>");
            reveal_strlit("Enter");
            reveal_strlit("backspace");
            reveal_strlit("backtab");
            reveal_strlit("bs");
            reveal_strlit("cr");
            reveal_strlit("del");
            reveal_strlit("delete");
            reveal_strlit("down");
            reveal_strlit("end");
            reveal_strlit("enter");
            reveal_strlit("esc");
            reveal_strlit("escape");
            reveal_strlit("home");
            reveal_strlit("ins");
            reveal_strlit("insert");
            reveal_strlit("left");
            reveal_strlit("nop");
            reveal_strlit("null");
            reveal_strlit("pagedown");
            reveal_strlit("pageup");
            reveal_strlit("pgdn");
            reveal_strlit("pgup");
            reveal_strlit("return");
            reveal_strlit("right");
            reveal_strlit("space");
            reveal_strlit("tab");
            reveal_strlit("up");
            assert(key_display(k) =~= bracketed("Enter"@));
            lemma_bracketed_inner("Enter"@);
            assert(ascii_lower("Enter"@) =~= "enter"@);
            lemma_find_char_none("enter"@, '-');
            assert("enter"@ != "esc"@) by {
                assert("enter"@[1] != "esc"@[1]);
            }
        } else if c == ' ' {
            reveal_strlit("<Space>");
            reveal_strlit("Space");
            reveal_strlit("backspace");
            reveal_strlit("backtab");
            reveal_strlit("bs");
            reveal_strlit("cr");
            reveal_strlit("del");
            reveal_strlit("delete");
            reveal_strlit("down");
            reveal_strlit("end");
            reveal_strlit("enter");
            reveal_strlit("esc");
            reveal_strlit("escape");
            reveal_strlit("home");
            reveal_strlit("ins");
            reveal_strlit("insert");
            reveal_strlit("left");
            reveal_strlit("nop");
            reveal_strlit("null");
            reveal_strlit("pagedown");
            reveal_strlit("pageup");
            reveal_strlit("pgdn");
            reveal_strlit("pgup");
            reveal_strlit("return");
            reveal_strlit("right");
            reveal_strlit("space");
            reveal_strlit("tab");
            reveal_strlit("up");
            assert(key_display(k) =~= bracketed("Space"@));
            lemma_bracketed_inner("Space"@);
            assert(ascii_lower("Space"@) =~= "space"@);
            lemma_find_char_none("space"@, '-');
            assert("space"@ != "esc"@);
            assert("space"@ != "escape"@);
            assert("space"@ != "enter"@) by {
                assert("space"@[0] != "enter"@[0]);
            }
            assert("space"@ != "cr"@);
            assert("space"@ != "return"@);
            assert("space"@ != "tab"@);
            assert("space"@ != "backtab"@);
            assert("space"@ != "bs"@);
            assert("space"@ != "backspace"@);
            assert("space"@ != "del"@);
            assert("space"@ != "delete"@);
            assert("space"@ != "ins"@);
            assert("space"@ != "insert"@);
        } else {
            let s = seq![c];
            assert(key_display(k) == s);
            assert(trim_start(s) == s);
            assert(trim_end(s) == s);
            assert(!(starts_with(s, seq!['<']) && ends_with(s, seq!['>']))) by {
                if starts_with(s, seq!['<']) && ends_with(s, seq!['>']) {
                    assert(s.subrange(0, 1)[0] == '<');
                    assert(s.subrange(0, 1)[0] == '>');
                }
            }
        }
}

proof fn lemma_shown_ctrl(c: char)
    requires
        (c as u32) < 128 && !('A' <= c <= 'Z'),
    ensures
        key_value_lowered(key_display(KeyCode::Ctrl(c))) == Some(KeyCode::Ctrl(c)),
{
    let k = KeyCode::Ctrl(c);
        reveal_strlit("<C-");
        reveal_strlit(">");
        assert(key_display(k) =~= bracketed(seq!['C', '-', c]));
        lemma_bracketed_inner(seq!['C', '-', c]);
        assert(is_ascii_text(seq!['C', '-', c]));
        law_modifier_prefixes(c, Seq::empty());
}

proof fn lemma_shown_alt(c: char)
    requires
        (c as u32) < 128 && !('A' <= c <= 'Z'),
    ensures
        key_value_lowered(key_display(KeyCode::Alt(c))) == Some(KeyCode::Alt(c)),
{
    let k = KeyCode::Alt(c);
        reveal_strlit("<A-");
        reveal_strlit(">");
        assert(key_display(k) =~= bracketed(seq!['A', '-', c]));
        lemma_bracketed_inner(seq!['A', '-', c]);
        assert(is_ascii_text(seq!['A', '-', c]));
        law_modifier_prefixes(c, Seq::empty());
}

proof fn lemma_shown_f(n: u8)
    requires
        1 <= n <= 12,
    ensures
        key_value_lowered(key_display(KeyCode::F(n))) == Some(KeyCode::F(n)),
{
    let k = KeyCode::F(n);
        reveal_strlit("<F");
        reveal_strlit(">");
        reveal_strlit("backspace");
        reveal_strlit("backtab");
        reveal_strlit("bs");
        reveal_strlit("cr");
        reveal_strlit("del");
        reveal_strlit("delete");
        reveal_strlit("down");
        reveal_strlit("end");
        reveal_strlit("enter");
        reveal_strlit("esc");
        reveal_strlit("escape");
        reveal_strlit("home");
        reveal_strlit("ins");
        reveal_strlit("insert");
        reveal_strlit("left");
        reveal_strlit("nop");
        reveal_strlit("null");
        reveal_strlit("pagedown");
        reveal_strlit("pageup");
        reveal_strlit("pgdn");
        reveal_strlit("pgup");
        reveal_strlit("return");
        reveal_strlit("right");
        reveal_strlit("space");
        reveal_strlit("tab");
        reveal_strlit("up");
        let d = decimal_of(n as nat);
        lemma_decimal_reads_back(n as nat);
        let inner = seq!['F'] + d;
        assert(key_display(k) =~= bracketed(inner));
        lemma_bracketed_inner(inner);
        let l = seq!['f'] + d;
        assert(is_ascii_text(inner));
        assert forall|i: int| 0 <= i < d.len() implies ascii_lower_char(#[trigger] d[i]) == d[i] by {
            assert(is_digit(d[i]));
        }
        assert(ascii_lower(inner) =~= l);
        assert forall|i: int| 0 <= i < l.len() implies #[trigger] l[i] != '-' by {
            if i > 0 {
                assert(l[i] == d[i - 1]);
                assert(is_digit(d[i - 1]));
            }
        }
        lemma_find_char_none(l, '-');
        assert(l != "esc"@) by {
            assert(l[0] != "esc"@[0]);
        }
        assert(l != "escape"@) by {
            assert(l[0] != "escape"@[0]);
        }
        assert(l != "enter"@) by {
            assert(l[0] != "enter"@[0]);
        }
        assert(l != "cr"@) by {
            assert(l[0] != "cr"@[0]);
        }
        assert(l != "return"@) by {
            assert(l[0] != "return"@[0]);
        }
        assert(l != "tab"@) by {
            assert(l[0] != "tab"@[0]);
        }
        assert(l != "backtab"@) by {
            assert(l[0] != "backtab"@[0]);
        }
        assert(l != "bs"@) by {
            assert(l[0] != "bs"@[0]);
        }
        assert(l != "backspace"@) by {
            assert(l[0] != "backspace"@[0]);
        }
        assert(l != "del"@) by {
            assert(l[0] != "del"@[0]);
        }
        assert(l != "delete"@) by {
            assert(l[0] != "delete"@[0]);
        }
        assert(l != "ins"@) by {
            assert(l[0] != "ins"@[0]);
        }
        assert(l != "insert"@) by {
            assert(l[0] != "insert"@[0]);
        }
        assert(l != "space"@) by {
            assert(l[0] != "space"@[0]);
        }
        assert(l != "up"@) by {
            assert(l[0] != "up"@[0]);
        }
        assert(l != "down"@) by {
            assert(l[0] != "down"@[0]);
        }
        assert(l != "left"@) by {
            assert(l[0] != "left"@[0]);
        }
        assert(l != "right"@) by {
            assert(l[0] != "right"@[0]);
        }
        assert(l != "pageup"@) by {
            assert(l[0] != "pageup"@[0]);
        }
        assert(l != "pgup"@) by {
            assert(l[0] != "pgup"@[0]);
        }
        assert(l != "pagedown"@) by {
            assert(l[0] != "pagedown"@[0]);
        }
        assert(l != "pgdn"@) by {
            assert(l[0] != "pgdn"@[0]);
        }
        assert(l != "home"@) by {
            assert(l[0] != "home"@[0]);
        }
        assert(l != "end"@) by {
            assert(l[0] != "end"@[0]);
        }
        assert(l != "null"@) by {
            assert(l[0] != "null"@[0]);
        }
        assert(l != "nop"@) by {
            assert(l[0] != "nop"@[0]);
        }
        assert(l.drop_first() =~= d);
}

/// A key shown on the help screen reads back, from the configuration, as
/// that key: for every key but a function key outside F1 to F12, a Ctrl or
/// Alt key of a character that is not ASCII or is an upper-case letter, and
/// a white-space character other than the space and the newline.
pub proof fn law_shown_key_reads_back(k: KeyCode)
    requires
        match k {
            KeyCode::F(n) => 1 <= n <= 12,
            KeyCode::Ctrl(c) => (c as u32) < 128 && !('A' <= c <= 'Z'),
            KeyCode::Alt(c) => (c as u32) < 128 && !('A' <= c <= 'Z'),
            KeyCode::Char(c) => !is_ws(c) || c == ' ' || c == '\n',
            _ => true,
        },
    ensures
        key_value_lowered(key_display(k)) == Some(k),
{
    match k {
        KeyCode::Esc => lemma_shown_esc(),
        KeyCode::Tab => lemma_shown_tab(),
        KeyCode::Backspace => lemma_shown_backspace(),
        KeyCode::Delete => lemma_shown_delete(),
        KeyCode::Insert => lemma_shown_insert(),
        KeyCode::Up => lemma_shown_up(),
        KeyCode::Down => lemma_shown_down(),
        KeyCode::Left => lemma_shown_left(),
        KeyCode::Right => lemma_shown_right(),
        KeyCode::PageUp => lemma_shown_page_up(),
        KeyCode::PageDown => lemma_shown_page_down(),
        KeyCode::Home => lemma_shown_home(),
        KeyCode::End => lemma_shown_end(),
        KeyCode::Null => lemma_shown_null(),
        KeyCode::Nop => lemma_shown_nop(),
        KeyCode::CtrlBackspace => lemma_shown_ctrl_backspace(),
        KeyCode::CtrlDelete => lemma_shown_ctrl_delete(),
        KeyCode::AltBackspace => lemma_shown_alt_backspace(),
        KeyCode::AltDelete => lemma_shown_alt_delete(),
        KeyCode::BackTab => lemma_shown_back_tab(),
        KeyCode::Char(c) => lemma_shown_char(c),
        KeyCode::Ctrl(c) => lemma_shown_ctrl(c),
        KeyCode::Alt(c) => lemma_shown_alt(c),
        KeyCode::F(n) => lemma_shown_f(n),
    }
}


proof fn lemma_help_key_quit(kc: KeyConfig)
    ensures
        key_for_name("quit"@, kc) == kc.quit,
{
    reveal(key_for_name);
    reveal_strlit("quit");
}

proof fn lemma_help_key_refresh(kc: KeyConfig)
    ensures
        key_for_name("refresh"@, kc) == kc.refresh,
{
    reveal(key_for_name);
    reveal_strlit("refresh");
    reveal_strlit("quit");
    assert("refresh"@.len() != "quit"@.len());
}

proof fn lemma_help_key_next_tab(kc: KeyConfig)
    ensures
        key_for_name("next_tab"@, kc) == kc.next_tab,
{
    reveal(key_for_name);
    reveal_strlit("next_tab");
    reveal_strlit("quit");
    assert("next_tab"@.len() != "quit"@.len());
    reveal_strlit("refresh");
    assert("next_tab"@.len() != "refresh"@.len());
}

proof fn lemma_help_key_previous_tab(kc: KeyConfig)
    ensures
        key_for_name("previous_tab"@, kc) == kc.previous_tab,
{
    reveal(key_for_name);
    reveal_strlit("previous_tab");
    reveal_strlit("quit");
    assert("previous_tab"@.len() != "quit"@.len());
    reveal_strlit("refresh");
    assert("previous_tab"@.len() != "refresh"@.len());
    reveal_strlit("next_tab");
    assert("previous_tab"@.len() != "next_tab"@.len());
}

proof fn lemma_help_key_filter(kc: KeyConfig)
    ensures
        key_for_name("filter"@, kc) == kc.filter,
{
    reveal(key_for_name);
    reveal_strlit("filter");
    reveal_strlit("quit");
    assert("filter"@.len() != "quit"@.len());
    reveal_strlit("refresh");
    assert("filter"@.len() != "refresh"@.len());
    reveal_strlit("next_tab");
    assert("filter"@.len() != "next_tab"@.len());
    reveal_strlit("previous_tab");
    assert("filter"@.len() != "previous_tab"@.len());
}

proof fn lemma_help_key_add(kc: KeyConfig)
    ensures
        key_for_name("add"@, kc) == kc.add,
{
    reveal(key_for_name);
    reveal_strlit("add");
    reveal_strlit("quit");
    assert("add"@.len() != "quit"@.len());
    reveal_strlit("filter");
    assert("add"@.len() != "filter"@.len());
    reveal_strlit("refresh");
    assert("add"@.len() != "refresh"@.len());
    reveal_strlit("next_tab");
    assert("add"@.len() != "next_tab"@.len());
    reveal_strlit("previous_tab");
    assert("add"@.len() != "previous_tab"@.len());
}

proof fn lemma_help_key_done(kc: KeyConfig)
    ensures
        key_for_name("done"@, kc) == kc.done,
{
    reveal(key_for_name);
    reveal_strlit("done");
    reveal_strlit("add");
    assert("done"@.len() != "add"@.len());
    reveal_strlit("quit");
    assert("done"@[0] != "quit"@[0]);
    reveal_strlit("filter");
    assert("done"@.len() != "filter"@.len());
    reveal_strlit("refresh");
    assert("done"@.len() != "refresh"@.len());
    reveal_strlit("next_tab");
    assert("done"@.len() != "next_tab"@.len());
    reveal_strlit("previous_tab");
    assert("done"@.len() != "previous_tab"@.len());
}

proof fn lemma_help_key_edit(kc: KeyConfig)
    ensures
        key_for_name("edit"@, kc) == kc.edit,
{
    reveal(key_for_name);
    reveal_strlit("edit");
    reveal_strlit("add");
    assert("edit"@.len() != "add"@.len());
    reveal_strlit("done");
    assert("edit"@[0] != "done"@[0]);
    reveal_strlit("quit");
    assert("edit"@[0] != "quit"@[0]);
    reveal_strlit("filter");
    assert("edit"@.len() != "filter"@.len());
    reveal_strlit("refresh");
    assert("edit"@.len() != "refresh"@.len());
    reveal_strlit("next_tab");
    assert("edit"@.len() != "next_tab"@.len());
    reveal_strlit("previous_tab");
    assert("edit"@.len() != "previous_tab"@.len());
}

proof fn lemma_help_key_duplicate(kc: KeyConfig)
    ensures
        key_for_name("duplicate"@, kc) == kc.duplicate,
{
    reveal(key_for_name);
    reveal_strlit("duplicate");
    reveal_strlit("add");
    assert("duplicate"@.len() != "add"@.len());
    reveal_strlit("done");
    assert("duplicate"@.len() != "done"@.len());
    reveal_strlit("edit");
    assert("duplicate"@.len() != "edit"@.len());
    reveal_strlit("quit");
    assert("duplicate"@.len() != "quit"@.len());
    reveal_strlit("filter");
    assert("duplicate"@.len() != "filter"@.len());
    reveal_strlit("refresh");
    assert("duplicate"@.len() != "refresh"@.len());
    reveal_strlit("next_tab");
    assert("duplicate"@.len() != "next_tab"@.len());
    reveal_strlit("previous_tab");
    assert("duplicate"@.len() != "previous_tab"@.len());
}

proof fn lemma_help_key_down(kc: KeyConfig)
    ensures
        key_for_name("down"@, kc) == kc.down,
{
    reveal(key_for_name);
    reveal_strlit("down");
    reveal_strlit("add");
    assert("down"@.len() != "add"@.len());
    reveal_strlit("done");
    assert("down"@[2] != "done"@[2]);
    reveal_strlit("edit");
    assert("down"@[0] != "edit"@[0]);
    reveal_strlit("quit");
    assert("down"@[0] != "quit"@[0]);
    reveal_strlit("filter");
    assert("down"@.len() != "filter"@.len());
    reveal_strlit("refresh");
    assert("down"@.len() != "refresh"@.len());
    reveal_strlit("next_tab");
    assert("down"@.len() != "next_tab"@.len());
    reveal_strlit("duplicate");
    assert("down"@.len() != "duplicate"@.len());
    reveal_strlit("previous_tab");
    assert("down"@.len() != "previous_tab"@.len());
}

proof fn lemma_help_key_up(kc: KeyConfig)
    ensures
        key_for_name("up"@, kc) == kc.up,
{
    reveal(key_for_name);
    reveal_strlit("up");
    reveal_strlit("add");
    assert("up"@.len() != "add"@.len());
    reveal_strlit("done");
    assert("up"@.len() != "done"@.len());
    reveal_strlit("down");
    assert("up"@.len() != "down"@.len());
    reveal_strlit("edit");
    assert("up"@.len() != "edit"@.len());
    reveal_strlit("quit");
    assert("up"@.len() != "quit"@.len());
    reveal_strlit("filter");
    assert("up"@.len() != "filter"@.len());
    reveal_strlit("refresh");
    assert("up"@.len() != "refresh"@.len());
    reveal_strlit("next_tab");
    assert("up"@.len() != "next_tab"@.len());
    reveal_strlit("duplicate");
    assert("up"@.len() != "duplicate"@.len());
    reveal_strlit("previous_tab");
    assert("up"@.len() != "previous_tab"@.len());
}

proof fn lemma_help_key_page_down(kc: KeyConfig)
    ensures
        key_for_name("page_down"@, kc) == kc.page_down,
{
    reveal(key_for_name);
    reveal_strlit("page_down");
    reveal_strlit("up");
    assert("page_down"@.len() != "up"@.len());
    reveal_strlit("add");
    assert("page_down"@.len() != "add"@.len());
    reveal_strlit("done");
    assert("page_down"@.len() != "done"@.len());
    reveal_strlit("down");
    assert("page_down"@.len() != "down"@.len());
    reveal_strlit("edit");
    assert("page_down"@.len() != "edit"@.len());
    reveal_strlit("quit");
    assert("page_down"@.len() != "quit"@.len());
    reveal_strlit("filter");
    assert("page_down"@.len() != "filter"@.len());
    reveal_strlit("refresh");
    assert("page_down"@.len() != "refresh"@.len());
    reveal_strlit("next_tab");
    assert("page_down"@.len() != "next_tab"@.len());
    reveal_strlit("duplicate");
    assert("page_down"@[0] != "duplicate"@[0]);
    reveal_strlit("previous_tab");
    assert("page_down"@.len() != "previous_tab"@.len());
}

proof fn lemma_help_key_page_up(kc: KeyConfig)
    ensures
        key_for_name("page_up"@, kc) == kc.page_up,
{
    reveal(key_for_name);
    reveal_strlit("page_up");
    reveal_strlit("up");
    assert("page_up"@.len() != "up"@.len());
    reveal_strlit("add");
    assert("page_up"@.len() != "add"@.len());
    reveal_strlit("done");
    assert("page_up"@.len() != "done"@.len());
    reveal_strlit("down");
    assert("page_up"@.len() != "down"@.len());
    reveal_strlit("edit");
    assert("page_up"@.len() != "edit"@.len());
    reveal_strlit("quit");
    assert("page_up"@.len() != "quit"@.len());
    reveal_strlit("filter");
    assert("page_up"@.len() != "filter"@.len());
    reveal_strlit("refresh");
    assert("page_up"@[0] != "refresh"@[0]);
    reveal_strlit("next_tab");
    assert("page_up"@.len() != "next_tab"@.len());
    reveal_strlit("duplicate");
    assert("page_up"@.len() != "duplicate"@.len());
    reveal_strlit("page_down");
    assert("page_up"@.len() != "page_down"@.len());
    reveal_strlit("previous_tab");
    assert("page_up"@.len() != "previous_tab"@.len());
}

proof fn lemma_help_key_go_to_top(kc: KeyConfig)
    ensures
        key_for_name("go_to_top"@, kc) == kc.go_to_top,
{
    reveal(key_for_name);
    reveal_strlit("go_to_top");
    reveal_strlit("up");
    assert("go_to_top"@.len() != "up"@.len());
    reveal_strlit("add");
    assert("go_to_top"@.len() != "add"@.len());
    reveal_strlit("done");
    assert("go_to_top"@.len() != "done"@.len());
    reveal_strlit("down");
    assert("go_to_top"@.len() != "down"@.len());
    reveal_strlit("edit");
    assert("go_to_top"@.len() != "edit"@.len());
    reveal_strlit("quit");
    assert("go_to_top"@.len() != "quit"@.len());
    reveal_strlit("filter");
    assert("go_to_top"@.len() != "filter"@.len());
    reveal_strlit("refresh");
    assert("go_to_top"@.len() != "refresh"@.len());
    reveal_strlit("page_up");
    assert("go_to_top"@.len() != "page_up"@.len());
    reveal_strlit("next_tab");
    assert("go_to_top"@.len() != "next_tab"@.len());
    reveal_strlit("duplicate");
    assert("go_to_top"@[0] != "duplicate"@[0]);
    reveal_strlit("page_down");
    assert("go_to_top"@[0] != "page_down"@[0]);
    reveal_strlit("previous_tab");
    assert("go_to_top"@.len() != "previous_tab"@.len());
}

proof fn lemma_help_key_go_to_bottom(kc: KeyConfig)
    ensures
        key_for_name("go_to_bottom"@, kc) == kc.go_to_bottom,
{
    reveal(key_for_name);
    reveal_strlit("go_to_bottom");
    reveal_strlit("up");
    assert("go_to_bottom"@.len() != "up"@.len());
    reveal_strlit("add");
    assert("go_to_bottom"@.len() != "add"@.len());
    reveal_strlit("done");
    assert("go_to_bottom"@.len() != "done"@.len());
    reveal_strlit("down");
    assert("go_to_bottom"@.len() != "down"@.len());
    reveal_strlit("edit");
    assert("go_to_bottom"@.len() != "edit"@.len());
    reveal_strlit("quit");
    assert("go_to_bottom"@.len() != "quit"@.len());
    reveal_strlit("filter");
    assert("go_to_bottom"@.len() != "filter"@.len());
    reveal_strlit("refresh");
    assert("go_to_bottom"@.len() != "refresh"@.len());
    reveal_strlit("page_up");
    assert("go_to_bottom"@.len() != "page_up"@.len());
    reveal_strlit("next_tab");
    assert("go_to_bottom"@.len() != "next_tab"@.len());
    reveal_strlit("duplicate");
    assert("go_to_bottom"@.len() != "duplicate"@.len());
    reveal_strlit("page_down");
    assert("go_to_bottom"@.len() != "page_down"@.len());
    reveal_strlit("go_to_top");
    assert("go_to_bottom"@.len() != "go_to_top"@.len());
    reveal_strlit("previous_tab");
    assert("go_to_bottom"@[0] != "previous_tab"@[0]);
}

proof fn lemma_help_key_log(kc: KeyConfig)
    ensures
        key_for_name("log"@, kc) == kc.log,
{
    reveal(key_for_name);
    reveal_strlit("log");
    reveal_strlit("up");
    assert("log"@.len() != "up"@.len());
    reveal_strlit("add");
    assert("log"@[0] != "add"@[0]);
    reveal_strlit("done");
    assert("log"@.len() != "done"@.len());
    reveal_strlit("down");
    assert("log"@.len() != "down"@.len());
    reveal_strlit("edit");
    assert("log"@.len() != "edit"@.len());
    reveal_strlit("quit");
    assert("log"@.len() != "quit"@.len());
    reveal_strlit("filter");
    assert("log"@.len() != "filter"@.len());
    reveal_strlit("refresh");
    assert("log"@.len() != "refresh"@.len());
    reveal_strlit("page_up");
    assert("log"@.len() != "page_up"@.len());
    reveal_strlit("next_tab");
    assert("log"@.len() != "next_tab"@.len());
    reveal_strlit("duplicate");
    assert("log"@.len() != "duplicate"@.len());
    reveal_strlit("page_down");
    assert("log"@.len() != "page_down"@.len());
    reveal_strlit("go_to_top");
    assert("log"@.len() != "go_to_top"@.len());
    reveal_strlit("previous_tab");
    assert("log"@.len() != "previous_tab"@.len());
    reveal_strlit("go_to_bottom");
    assert("log"@.len() != "go_to_bottom"@.len());
}

proof fn lemma_help_key_modify(kc: KeyConfig)
    ensures
        key_for_name("modify"@, kc) == kc.modify,
{
    reveal(key_for_name);
    reveal_strlit("modify");
    reveal_strlit("up");
    assert("modify"@.len() != "up"@.len());
    reveal_strlit("add");
    assert("modify"@.len() != "add"@.len());
    reveal_strlit("log");
    assert("modify"@.len() != "log"@.len());
    reveal_strlit("done");
    assert("modify"@.len() != "done"@.len());
    reveal_strlit("down");
    assert("modify"@.len() != "down"@.len());
    reveal_strlit("edit");
    assert("modify"@.len() != "edit"@.len());
    reveal_strlit("quit");
    assert("modify"@.len() != "quit"@.len());
    reveal_strlit("filter");
    assert("modify"@[0] != "filter"@[0]);
    reveal_strlit("refresh");
    assert("modify"@.len() != "refresh"@.len());
    reveal_strlit("page_up");
    assert("modify"@.len() != "page_up"@.len());
    reveal_strlit("next_tab");
    assert("modify"@.len() != "next_tab"@.len());
    reveal_strlit("duplicate");
    assert("modify"@.len() != "duplicate"@.len());
    reveal_strlit("page_down");
    assert("modify"@.len() != "page_down"@.len());
    reveal_strlit("go_to_top");
    assert("modify"@.len() != "go_to_top"@.len());
    reveal_strlit("previous_tab");
    assert("modify"@.len() != "previous_tab"@.len());
    reveal_strlit("go_to_bottom");
    assert("modify"@.len() != "go_to_bottom"@.len());
}

proof fn lemma_help_key_start_stop(kc: KeyConfig)
    ensures
        key_for_name("start_stop"@, kc) == kc.start_stop,
{
    reveal(key_for_name);
    reveal_strlit("start_stop");
    reveal_strlit("up");
    assert("start_stop"@.len() != "up"@.len());
    reveal_strlit("add");
    assert("start_stop"@.len() != "add"@.len());
    reveal_strlit("log");
    assert("start_stop"@.len() != "log"@.len());
    reveal_strlit("done");
    assert("start_stop"@.len() != "done"@.len());
    reveal_strlit("down");
    assert("start_stop"@.len() != "down"@.len());
    reveal_strlit("edit");
    assert("start_stop"@.len() != "edit"@.len());
    reveal_strlit("quit");
    assert("start_stop"@.len() != "quit"@.len());
    reveal_strlit("filter");
    assert("start_stop"@.len() != "filter"@.len());
    reveal_strlit("modify");
    assert("start_stop"@.len() != "modify"@.len());
    reveal_strlit("refresh");
    assert("start_stop"@.len() != "refresh"@.len());
    reveal_strlit("page_up");
    assert("start_stop"@.len() != "page_up"@.len());
    reveal_strlit("next_tab");
    assert("start_stop"@.len() != "next_tab"@.len());
    reveal_strlit("duplicate");
    assert("start_stop"@.len() != "duplicate"@.len());
    reveal_strlit("page_down");
    assert("start_stop"@.len() != "page_down"@.len());
    reveal_strlit("go_to_top");
    assert("start_stop"@.len() != "go_to_top"@.len());
    reveal_strlit("previous_tab");
    assert("start_stop"@.len() != "previous_tab"@.len());
    reveal_strlit("go_to_bottom");
    assert("start_stop"@.len() != "go_to_bottom"@.len());
}

proof fn lemma_help_key_quick_tag(kc: KeyConfig)
    ensures
        key_for_name("quick_tag"@, kc) == kc.quick_tag,
{
    reveal(key_for_name);
    reveal_strlit("quick_tag");
    reveal_strlit("up");
    assert("quick_tag"@.len() != "up"@.len());
    reveal_strlit("add");
    assert("quick_tag"@.len() != "add"@.len());
    reveal_strlit("log");
    assert("quick_tag"@.len() != "log"@.len());
    reveal_strlit("done");
    assert("quick_tag"@.len() != "done"@.len());
    reveal_strlit("down");
    assert("quick_tag"@.len() != "down"@.len());
    reveal_strlit("edit");
    assert("quick_tag"@.len() != "edit"@.len());
    reveal_strlit("quit");
    assert("quick_tag"@.len() != "quit"@.len());
    reveal_strlit("filter");
    assert("quick_tag"@.len() != "filter"@.len());
    reveal_strlit("modify");
    assert("quick_tag"@.len() != "modify"@.len());
    reveal_strlit("refresh");
    assert("quick_tag"@.len() != "refresh"@.len());
    reveal_strlit("page_up");
    assert("quick_tag"@.len() != "page_up"@.len());
    reveal_strlit("next_tab");
    assert("quick_tag"@.len() != "next_tab"@.len());
    reveal_strlit("duplicate");
    assert("quick_tag"@[0] != "duplicate"@[0]);
    reveal_strlit("page_down");
    assert("quick_tag"@[0] != "page_down"@[0]);
    reveal_strlit("go_to_top");
    assert("quick_tag"@[0] != "go_to_top"@[0]);
    reveal_strlit("start_stop");
    assert("quick_tag"@.len() != "start_stop"@.len());
    reveal_strlit("previous_tab");
    assert("quick_tag"@.len() != "previous_tab"@.len());
    reveal_strlit("go_to_bottom");
    assert("quick_tag"@.len() != "go_to_bottom"@.len());
}

proof fn lemma_help_key_undo(kc: KeyConfig)
    ensures
        key_for_name("undo"@, kc) == kc.undo,
{
    reveal(key_for_name);
    reveal_strlit("undo");
    reveal_strlit("up");
    assert("undo"@.len() != "up"@.len());
    reveal_strlit("add");
    assert("undo"@.len() != "add"@.len());
    reveal_strlit("log");
    assert("undo"@.len() != "log"@.len());
    reveal_strlit("done");
    assert("undo"@[0] != "done"@[0]);
    reveal_strlit("down");
    assert("undo"@[0] != "down"@[0]);
    reveal_strlit("edit");
    assert("undo"@[0] != "edit"@[0]);
    reveal_strlit("quit");
    assert("undo"@[0] != "quit"@[0]);
    reveal_strlit("filter");
    assert("undo"@.len() != "filter"@.len());
    reveal_strlit("modify");
    assert("undo"@.len() != "modify"@.len());
    reveal_strlit("refresh");
    assert("undo"@.len() != "refresh"@.len());
    reveal_strlit("page_up");
    assert("undo"@.len() != "page_up"@.len());
    reveal_strlit("next_tab");
    assert("undo"@.len() != "next_tab"@.len());
    reveal_strlit("duplicate");
    assert("undo"@.len() != "duplicate"@.len());
    reveal_strlit("quick_tag");
    assert("undo"@.len() != "quick_tag"@.len());
    reveal_strlit("page_down");
    assert("undo"@.len() != "page_down"@.len());
    reveal_strlit("go_to_top");
    assert("undo"@.len() != "go_to_top"@.len());
    reveal_strlit("start_stop");
    assert("undo"@.len() != "start_stop"@.len());
    reveal_strlit("previous_tab");
    assert("undo"@.len() != "previous_tab"@.len());
    reveal_strlit("go_to_bottom");
    assert("undo"@.len() != "go_to_bottom"@.len());
}

proof fn lemma_help_key_select(kc: KeyConfig)
    ensures
        key_for_name("select"@, kc) == kc.select,
{
    reveal(key_for_name);
    reveal_strlit("select");
    reveal_strlit("up");
    assert("select"@.len() != "up"@.len());
    reveal_strlit("add");
    assert("select"@.len() != "add"@.len());
    reveal_strlit("log");
    assert("select"@.len() != "log"@.len());
    reveal_strlit("done");
    assert("select"@.len() != "done"@.len());
    reveal_strlit("down");
    assert("select"@.len() != "down"@.len());
    reveal_strlit("undo");
    assert("select"@.len() != "undo"@.len());
    reveal_strlit("edit");
    assert("select"@.len() != "edit"@.len());
    reveal_strlit("quit");
    assert("select"@.len() != "quit"@.len());
    reveal_strlit("filter");
    assert("select"@[0] != "filter"@[0]);
    reveal_strlit("modify");
    assert("select"@[0] != "modify"@[0]);
    reveal_strlit("refresh");
    assert("select"@.len() != "refresh"@.len());
    reveal_strlit("page_up");
    assert("select"@.len() != "page_up"@.len());
    reveal_strlit("next_tab");
    assert("select"@.len() != "next_tab"@.len());
    reveal_strlit("duplicate");
    assert("select"@.len() != "duplicate"@.len());
    reveal_strlit("quick_tag");
    assert("select"@.len() != "quick_tag"@.len());
    reveal_strlit("page_down");
    assert("select"@.len() != "page_down"@.len());
    reveal_strlit("go_to_top");
    assert("select"@.len() != "go_to_top"@.len());
    reveal_strlit("start_stop");
    assert("select"@.len() != "start_stop"@.len());
    reveal_strlit("previous_tab");
    assert("select"@.len() != "previous_tab"@.len());
    reveal_strlit("go_to_bottom");
    assert("select"@.len() != "go_to_bottom"@.len());
}

proof fn lemma_help_key_select_all(kc: KeyConfig)
    ensures
        key_for_name("select_all"@, kc) == kc.select_all,
{
    reveal(key_for_name);
    reveal_strlit("select_all");
    reveal_strlit("up");
    assert("select_all"@.len() != "up"@.len());
    reveal_strlit("add");
    assert("select_all"@.len() != "add"@.len());
    reveal_strlit("log");
    assert("select_all"@.len() != "log"@.len());
    reveal_strlit("done");
    assert("select_all"@.len() != "done"@.len());
    reveal_strlit("down");
    assert("select_all"@.len() != "down"@.len());
    reveal_strlit("undo");
    assert("select_all"@.len() != "undo"@.len());
    reveal_strlit("edit");
    assert("select_all"@.len() != "edit"@.len());
    reveal_strlit("quit");
    assert("select_all"@.len() != "quit"@.len());
    reveal_strlit("filter");
    assert("select_all"@.len() != "filter"@.len());
    reveal_strlit("select");
    assert("select_all"@.len() != "select"@.len());
    reveal_strlit("modify");
    assert("select_all"@.len() != "modify"@.len());
    reveal_strlit("refresh");
    assert("select_all"@.len() != "refresh"@.len());
    reveal_strlit("page_up");
    assert("select_all"@.len() != "page_up"@.len());
    reveal_strlit("next_tab");
    assert("select_all"@.len() != "next_tab"@.len());
    reveal_strlit("duplicate");
    assert("select_all"@.len() != "duplicate"@.len());
    reveal_strlit("quick_tag");
    assert("select_all"@.len() != "quick_tag"@.len());
    reveal_strlit("page_down");
    assert("select_all"@.len() != "page_down"@.len());
    reveal_strlit("go_to_top");
    assert("select_all"@.len() != "go_to_top"@.len());
    reveal_strlit("start_stop");
    assert("select_all"@[1] != "start_stop"@[1]);
    reveal_strlit("previous_tab");
    assert("select_all"@.len() != "previous_tab"@.len());
    reveal_strlit("go_to_bottom");
    assert("select_all"@.len() != "go_to_bottom"@.len());
}

proof fn lemma_help_key_delete(kc: KeyConfig)
    ensures
        key_for_name("delete"@, kc) == kc.delete,
{
    reveal(key_for_name);
    reveal_strlit("delete");
    reveal_strlit("up");
    assert("delete"@.len() != "up"@.len());
    reveal_strlit("add");
    assert("delete"@.len() != "add"@.len());
    reveal_strlit("log");
    assert("delete"@.len() != "log"@.len());
    reveal_strlit("done");
    assert("delete"@.len() != "done"@.len());
    reveal_strlit("down");
    assert("delete"@.len() != "down"@.len());
    reveal_strlit("undo");
    assert("delete"@.len() != "undo"@.len());
    reveal_strlit("edit");
    assert("delete"@.len() != "edit"@.len());
    reveal_strlit("quit");
    assert("delete"@.len() != "quit"@.len());
    reveal_strlit("filter");
    assert("delete"@[0] != "filter"@[0]);
    reveal_strlit("select");
    assert("delete"@[0] != "select"@[0]);
    reveal_strlit("modify");
    assert("delete"@[0] != "modify"@[0]);
    reveal_strlit("refresh");
    assert("delete"@.len() != "refresh"@.len());
    reveal_strlit("page_up");
    assert("delete"@.len() != "page_up"@.len());
    reveal_strlit("next_tab");
    assert("delete"@.len() != "next_tab"@.len());
    reveal_strlit("duplicate");
    assert("delete"@.len() != "duplicate"@.len());
    reveal_strlit("quick_tag");
    assert("delete"@.len() != "quick_tag"@.len());
    reveal_strlit("page_down");
    assert("delete"@.len() != "page_down"@.len());
    reveal_strlit("go_to_top");
    assert("delete"@.len() != "go_to_top"@.len());
    reveal_strlit("select_all");
    assert("delete"@.len() != "select_all"@.len());
    reveal_strlit("start_stop");
    assert("delete"@.len() != "start_stop"@.len());
    reveal_strlit("previous_tab");
    assert("delete"@.len() != "previous_tab"@.len());
    reveal_strlit("go_to_bottom");
    assert("delete"@.len() != "go_to_bottom"@.len());
}

proof fn lemma_help_key_zoom(kc: KeyConfig)
    ensures
        key_for_name("zoom"@, kc) == kc.zoom,
{
    reveal(key_for_name);
    reveal_strlit("zoom");
    reveal_strlit("up");
    assert("zoom"@.len() != "up"@.len());
    reveal_strlit("add");
    assert("zoom"@.len() != "add"@.len());
    reveal_strlit("log");
    assert("zoom"@.len() != "log"@.len());
    reveal_strlit("done");
    assert("zoom"@[0] != "done"@[0]);
    reveal_strlit("down");
    assert("zoom"@[0] != "down"@[0]);
    reveal_strlit("undo");
    assert("zoom"@[0] != "undo"@[0]);
    reveal_strlit("edit");
    assert("zoom"@[0] != "edit"@[0]);
    reveal_strlit("quit");
    assert("zoom"@[0] != "quit"@[0]);
    reveal_strlit("delete");
    assert("zoom"@.len() != "delete"@.len());
    reveal_strlit("filter");
    assert("zoom"@.len() != "filter"@.len());
    reveal_strlit("select");
    assert("zoom"@.len() != "select"@.len());
    reveal_strlit("modify");
    assert("zoom"@.len() != "modify"@.len());
    reveal_strlit("refresh");
    assert("zoom"@.len() != "refresh"@.len());
    reveal_strlit("page_up");
    assert("zoom"@.len() != "page_up"@.len());
    reveal_strlit("next_tab");
    assert("zoom"@.len() != "next_tab"@.len());
    reveal_strlit("duplicate");
    assert("zoom"@.len() != "duplicate"@.len());
    reveal_strlit("quick_tag");
    assert("zoom"@.len() != "quick_tag"@.len());
    reveal_strlit("page_down");
    assert("zoom"@.len() != "page_down"@.len());
    reveal_strlit("go_to_top");
    assert("zoom"@.len() != "go_to_top"@.len());
    reveal_strlit("select_all");
    assert("zoom"@.len() != "select_all"@.len());
    reveal_strlit("start_stop");
    assert("zoom"@.len() != "start_stop"@.len());
    reveal_strlit("previous_tab");
    assert("zoom"@.len() != "previous_tab"@.len());
    reveal_strlit("go_to_bottom");
    assert("zoom"@.len() != "go_to_bottom"@.len());
}

proof fn lemma_help_key_annotate(kc: KeyConfig)
    ensures
        key_for_name("annotate"@, kc) == kc.annotate,
{
    reveal(key_for_name);
    reveal_strlit("annotate");
    reveal_strlit("up");
    assert("annotate"@.len() != "up"@.len());
    reveal_strlit("add");
    assert("annotate"@.len() != "add"@.len());
    reveal_strlit("log");
    assert("annotate"@.len() != "log"@.len());
    reveal_strlit("done");
    assert("annotate"@.len() != "done"@.len());
    reveal_strlit("zoom");
    assert("annotate"@.len() != "zoom"@.len());
    reveal_strlit("down");
    assert("annotate"@.len() != "down"@.len());
    reveal_strlit("undo");
    assert("annotate"@.len() != "undo"@.len());
    reveal_strlit("edit");
    assert("annotate"@.len() != "edit"@.len());
    reveal_strlit("quit");
    assert("annotate"@.len() != "quit"@.len());
    reveal_strlit("delete");
    assert("annotate"@.len() != "delete"@.len());
    reveal_strlit("filter");
    assert("annotate"@.len() != "filter"@.len());
    reveal_strlit("select");
    assert("annotate"@.len() != "select"@.len());
    reveal_strlit("modify");
    assert("annotate"@.len() != "modify"@.len());
    reveal_strlit("refresh");
    assert("annotate"@.len() != "refresh"@.len());
    reveal_strlit("page_up");
    assert("annotate"@.len() != "page_up"@.len());
    reveal_strlit("next_tab");
    assert("annotate"@[0] != "next_tab"@[0]);
    reveal_strlit("duplicate");
    assert("annotate"@.len() != "duplicate"@.len());
    reveal_strlit("quick_tag");
    assert("annotate"@.len() != "quick_tag"@.len());
    reveal_strlit("page_down");
    assert("annotate"@.len() != "page_down"@.len());
    reveal_strlit("go_to_top");
    assert("annotate"@.len() != "go_to_top"@.len());
    reveal_strlit("select_all");
    assert("annotate"@.len() != "select_all"@.len());
    reveal_strlit("start_stop");
    assert("annotate"@.len() != "start_stop"@.len());
    reveal_strlit("previous_tab");
    assert("annotate"@.len() != "previous_tab"@.len());
    reveal_strlit("go_to_bottom");
    assert("annotate"@.len() != "go_to_bottom"@.len());
}

proof fn lemma_help_key_shell(kc: KeyConfig)
    ensures
        key_for_name("shell"@, kc) == kc.shell,
{
    reveal(key_for_name);
    reveal_strlit("shell");
    reveal_strlit("up");
    assert("shell"@.len() != "up"@.len());
    reveal_strlit("add");
    assert("shell"@.len() != "add"@.len());
    reveal_strlit("log");
    assert("shell"@.len() != "log"@.len());
    reveal_strlit("done");
    assert("shell"@.len() != "done"@.len());
    reveal_strlit("zoom");
    assert("shell"@.len() != "zoom"@.len());
    reveal_strlit("down");
    assert("shell"@.len() != "down"@.len());
    reveal_strlit("undo");
    assert("shell"@.len() != "undo"@.len());
    reveal_strlit("edit");
    assert("shell"@.len() != "edit"@.len());
    reveal_strlit("quit");
    assert("shell"@.len() != "quit"@.len());
    reveal_strlit("delete");
    assert("shell"@.len() != "delete"@.len());
    reveal_strlit("filter");
    assert("shell"@.len() != "filter"@.len());
    reveal_strlit("select");
    assert("shell"@.len() != "select"@.len());
    reveal_strlit("modify");
    assert("shell"@.len() != "modify"@.len());
    reveal_strlit("refresh");
    assert("shell"@.len() != "refresh"@.len());
    reveal_strlit("page_up");
    assert("shell"@.len() != "page_up"@.len());
    reveal_strlit("next_tab");
    assert("shell"@.len() != "next_tab"@.len());
    reveal_strlit("annotate");
    assert("shell"@.len() != "annotate"@.len());
    reveal_strlit("duplicate");
    assert("shell"@.len() != "duplicate"@.len());
    reveal_strlit("quick_tag");
    assert("shell"@.len() != "quick_tag"@.len());
    reveal_strlit("page_down");
    assert("shell"@.len() != "page_down"@.len());
    reveal_strlit("go_to_top");
    assert("shell"@.len() != "go_to_top"@.len());
    reveal_strlit("select_all");
    assert("shell"@.len() != "select_all"@.len());
    reveal_strlit("start_stop");
    assert("shell"@.len() != "start_stop"@.len());
    reveal_strlit("previous_tab");
    assert("shell"@.len() != "previous_tab"@.len());
    reveal_strlit("go_to_bottom");
    assert("shell"@.len() != "go_to_bottom"@.len());
}

proof fn lemma_help_key_shortcut0(kc: KeyConfig)
    ensures
        key_for_name("shortcut0"@, kc) == kc.shortcut0,
{
    reveal(key_for_name);
    reveal_strlit("shortcut0");
    reveal_strlit("up");
    assert("shortcut0"@.len() != "up"@.len());
    reveal_strlit("add");
    assert("shortcut0"@.len() != "add"@.len());
    reveal_strlit("log");
    assert("shortcut0"@.len() != "log"@.len());
    reveal_strlit("done");
    assert("shortcut0"@.len() != "done"@.len());
    reveal_strlit("zoom");
    assert("shortcut0"@.len() != "zoom"@.len());
    reveal_strlit("down");
    assert("shortcut0"@.len() != "down"@.len());
    reveal_strlit("undo");
    assert("shortcut0"@.len() != "undo"@.len());
    reveal_strlit("edit");
    assert("shortcut0"@.len() != "edit"@.len());
    reveal_strlit("quit");
    assert("shortcut0"@.len() != "quit"@.len());
    reveal_strlit("shell");
    assert("shortcut0"@.len() != "shell"@.len());
    reveal_strlit("delete");
    assert("shortcut0"@.len() != "delete"@.len());
    reveal_strlit("filter");
    assert("shortcut0"@.len() != "filter"@.len());
    reveal_strlit("select");
    assert("shortcut0"@.len() != "select"@.len());
    reveal_strlit("modify");
    assert("shortcut0"@.len() != "modify"@.len());
    reveal_strlit("refresh");
    assert("shortcut0"@.len() != "refresh"@.len());
    reveal_strlit("page_up");
    assert("shortcut0"@.len() != "page_up"@.len());
    reveal_strlit("next_tab");
    assert("shortcut0"@.len() != "next_tab"@.len());
    reveal_strlit("annotate");
    assert("shortcut0"@.len() != "annotate"@.len());
    reveal_strlit("duplicate");
    assert("shortcut0"@[0] != "duplicate"@[0]);
    reveal_strlit("quick_tag");
    assert("shortcut0"@[0] != "quick_tag"@[0]);
    reveal_strlit("page_down");
    assert("shortcut0"@[0] != "page_down"@[0]);
    reveal_strlit("go_to_top");
    assert("shortcut0"@[0] != "go_to_top"@[0]);
    reveal_strlit("select_all");
    assert("shortcut0"@.len() != "select_all"@.len());
    reveal_strlit("start_stop");
    assert("shortcut0"@.len() != "start_stop"@.len());
    reveal_strlit("previous_tab");
    assert("shortcut0"@.len() != "previous_tab"@.len());
    reveal_strlit("go_to_bottom");
    assert("shortcut0"@.len() != "go_to_bottom"@.len());
}

proof fn lemma_help_key_shortcut1(kc: KeyConfig)
    ensures
        key_for_name("shortcut1"@, kc) == kc.shortcut1,
{
    reveal(key_for_name);
    reveal_strlit("shortcut1");
    reveal_strlit("up");
    assert("shortcut1"@.len() != "up"@.len());
    reveal_strlit("add");
    assert("shortcut1"@.len() != "add"@.len());
    reveal_strlit("log");
    assert("shortcut1"@.len() != "log"@.len());
    reveal_strlit("done");
    assert("shortcut1"@.len() != "done"@.len());
    reveal_strlit("zoom");
    assert("shortcut1"@.len() != "zoom"@.len());
    reveal_strlit("down");
    assert("shortcut1"@.len() != "down"@.len());
    reveal_strlit("undo");
    assert("shortcut1"@.len() != "undo"@.len());
    reveal_strlit("edit");
    assert("shortcut1"@.len() != "edit"@.len());
    reveal_strlit("quit");
    assert("shortcut1"@.len() != "quit"@.len());
    reveal_strlit("shell");
    assert("shortcut1"@.len() != "shell"@.len());
    reveal_strlit("delete");
    assert("shortcut1"@.len() != "delete"@.len());
    reveal_strlit("filter");
    assert("shortcut1"@.len() != "filter"@.len());
    reveal_strlit("select");
    assert("shortcut1"@.len() != "select"@.len());
    reveal_strlit("modify");
    assert("shortcut1"@.len() != "modify"@.len());
    reveal_strlit("refresh");
    assert("shortcut1"@.len() != "refresh"@.len());
    reveal_strlit("page_up");
    assert("shortcut1"@.len() != "page_up"@.len());
    reveal_strlit("next_tab");
    assert("shortcut1"@.len() != "next_tab"@.len());
    reveal_strlit("annotate");
    assert("shortcut1"@.len() != "annotate"@.len());
    reveal_strlit("shortcut0");
    assert("shortcut1"@[8] != "shortcut0"@[8]);
    reveal_strlit("duplicate");
    assert("shortcut1"@[0] != "duplicate"@[0]);
    reveal_strlit("quick_tag");
    assert("shortcut1"@[0] != "quick_tag"@[0]);
    reveal_strlit("page_down");
    assert("shortcut1"@[0] != "page_down"@[0]);
    reveal_strlit("go_to_top");
    assert("shortcut1"@[0] != "go_to_top"@[0]);
    reveal_strlit("select_all");
    assert("shortcut1"@.len() != "select_all"@.len());
    reveal_strlit("start_stop");
    assert("shortcut1"@.len() != "start_stop"@.len());
    reveal_strlit("previous_tab");
    assert("shortcut1"@.len() != "previous_tab"@.len());
    reveal_strlit("go_to_bottom");
    assert("shortcut1"@.len() != "go_to_bottom"@.len());
}

proof fn lemma_help_key_shortcut2(kc: KeyConfig)
    ensures
        key_for_name("shortcut2"@, kc) == kc.shortcut2,
{
    reveal(key_for_name);
    reveal_strlit("shortcut2");
    reveal_strlit("up");
    assert("shortcut2"@.len() != "up"@.len());
    reveal_strlit("add");
    assert("shortcut2"@.len() != "add"@.len());
    reveal_strlit("log");
    assert("shortcut2"@.len() != "log"@.len());
    reveal_strlit("done");
    assert("shortcut2"@.len() != "done"@.len());
    reveal_strlit("zoom");
    assert("shortcut2"@.len() != "zoom"@.len());
    reveal_strlit("down");
    assert("shortcut2"@.len() != "down"@.len());
    reveal_strlit("undo");
    assert("shortcut2"@.len() != "undo"@.len());
    reveal_strlit("edit");
    assert("shortcut2"@.len() != "edit"@.len());
    reveal_strlit("quit");
    assert("shortcut2"@.len() != "quit"@.len());
    reveal_strlit("shell");
    assert("shortcut2"@.len() != "shell"@.len());
    reveal_strlit("delete");
    assert("shortcut2"@.len() != "delete"@.len());
    reveal_strlit("filter");
    assert("shortcut2"@.len() != "filter"@.len());
    reveal_strlit("select");
    assert("shortcut2"@.len() != "select"@.len());
    reveal_strlit("modify");
    assert("shortcut2"@.len() != "modify"@.len());
    reveal_strlit("refresh");
    assert("shortcut2"@.len() != "refresh"@.len());
    reveal_strlit("page_up");
    assert("shortcut2"@.len() != "page_up"@.len());
    reveal_strlit("next_tab");
    assert("shortcut2"@.len() != "next_tab"@.len());
    reveal_strlit("annotate");
    assert("shortcut2"@.len() != "annotate"@.len());
    reveal_strlit("shortcut0");
    assert("shortcut2"@[8] != "shortcut0"@[8]);
    reveal_strlit("shortcut1");
    assert("shortcut2"@[8] != "shortcut1"@[8]);
    reveal_strlit("duplicate");
    assert("shortcut2"@[0] != "duplicate"@[0]);
    reveal_strlit("quick_tag");
    assert("shortcut2"@[0] != "quick_tag"@[0]);
    reveal_strlit("page_down");
    assert("shortcut2"@[0] != "page_down"@[0]);
    reveal_strlit("go_to_top");
    assert("shortcut2"@[0] != "go_to_top"@[0]);
    reveal_strlit("select_all");
    assert("shortcut2"@.len() != "select_all"@.len());
    reveal_strlit("start_stop");
    assert("shortcut2"@.len() != "start_stop"@.len());
    reveal_strlit("previous_tab");
    assert("shortcut2"@.len() != "previous_tab"@.len());
    reveal_strlit("go_to_bottom");
    assert("shortcut2"@.len() != "go_to_bottom"@.len());
}

proof fn lemma_help_key_shortcut3(kc: KeyConfig)
    ensures
        key_for_name("shortcut3"@, kc) == kc.shortcut3,
{
    reveal(key_for_name);
    reveal_strlit("shortcut3");
    reveal_strlit("up");
    assert("shortcut3"@.len() != "up"@.len());
    reveal_strlit("add");
    assert("shortcut3"@.len() != "add"@.len());
    reveal_strlit("log");
    assert("shortcut3"@.len() != "log"@.len());
    reveal_strlit("done");
    assert("shortcut3"@.len() != "done"@.len());
    reveal_strlit("zoom");
    assert("shortcut3"@.len() != "zoom"@.len());
    reveal_strlit("down");
    assert("shortcut3"@.len() != "down"@.len());
    reveal_strlit("undo");
    assert("shortcut3"@.len() != "undo"@.len());
    reveal_strlit("edit");
    assert("shortcut3"@.len() != "edit"@.len());
    reveal_strlit("quit");
    assert("shortcut3"@.len() != "quit"@.len());
    reveal_strlit("shell");
    assert("shortcut3"@.len() != "shell"@.len());
    reveal_strlit("delete");
    assert("shortcut3"@.len() != "delete"@.len());
    reveal_strlit("filter");
    assert("shortcut3"@.len() != "filter"@.len());
    reveal_strlit("select");
    assert("shortcut3"@.len() != "select"@.len());
    reveal_strlit("modify");
    assert("shortcut3"@.len() != "modify"@.len());
    reveal_strlit("refresh");
    assert("shortcut3"@.len() != "refresh"@.len());
    reveal_strlit("page_up");
    assert("shortcut3"@.len() != "page_up"@.len());
    reveal_strlit("next_tab");
    assert("shortcut3"@.len() != "next_tab"@.len());
    reveal_strlit("annotate");
    assert("shortcut3"@.len() != "annotate"@.len());
    reveal_strlit("shortcut0");
    assert("shortcut3"@[8] != "shortcut0"@[8]);
    reveal_strlit("shortcut1");
    assert("shortcut3"@[8] != "shortcut1"@[8]);
    reveal_strlit("shortcut2");
    assert("shortcut3"@[8] != "shortcut2"@[8]);
    reveal_strlit("duplicate");
    assert("shortcut3"@[0] != "duplicate"@[0]);
    reveal_strlit("quick_tag");
    assert("shortcut3"@[0] != "quick_tag"@[0]);
    reveal_strlit("page_down");
    assert("shortcut3"@[0] != "page_down"@[0]);
    reveal_strlit("go_to_top");
    assert("shortcut3"@[0] != "go_to_top"@[0]);
    reveal_strlit("select_all");
    assert("shortcut3"@.len() != "select_all"@.len());
    reveal_strlit("start_stop");
    assert("shortcut3"@.len() != "start_stop"@.len());
    reveal_strlit("previous_tab");
    assert("shortcut3"@.len() != "previous_tab"@.len());
    reveal_strlit("go_to_bottom");
    assert("shortcut3"@.len() != "go_to_bottom"@.len());
}

proof fn lemma_help_key_shortcut4(kc: KeyConfig)
    ensures
        key_for_name("shortcut4"@, kc) == kc.shortcut4,
{
    reveal(key_for_name);
    reveal_strlit("shortcut4");
    reveal_strlit("up");
    assert("shortcut4"@.len() != "up"@.len());
    reveal_strlit("add");
    assert("shortcut4"@.len() != "add"@.len());
    reveal_strlit("log");
    assert("shortcut4"@.len() != "log"@.len());
    reveal_strlit("done");
    assert("shortcut4"@.len() != "done"@.len());
    reveal_strlit("zoom");
    assert("shortcut4"@.len() != "zoom"@.len());
    reveal_strlit("down");
    assert("shortcut4"@.len() != "down"@.len());
    reveal_strlit("undo");
    assert("shortcut4"@.len() != "undo"@.len());
    reveal_strlit("edit");
    assert("shortcut4"@.len() != "edit"@.len());
    reveal_strlit("quit");
    assert("shortcut4"@.len() != "quit"@.len());
    reveal_strlit("shell");
    assert("shortcut4"@.len() != "shell"@.len());
    reveal_strlit("delete");
    assert("shortcut4"@.len() != "delete"@.len());
    reveal_strlit("filter");
    assert("shortcut4"@.len() != "filter"@.len());
    reveal_strlit("select");
    assert("shortcut4"@.len() != "select"@.len());
    reveal_strlit("modify");
    assert("shortcut4"@.len() != "modify"@.len());
    reveal_strlit("refresh");
    assert("shortcut4"@.len() != "refresh"@.len());
    reveal_strlit("page_up");
    assert("shortcut4"@.len() != "page_up"@.len());
    reveal_strlit("next_tab");
    assert("shortcut4"@.len() != "next_tab"@.len());
    reveal_strlit("annotate");
    assert("shortcut4"@.len() != "annotate"@.len());
    reveal_strlit("shortcut0");
    assert("shortcut4"@[8] != "shortcut0"@[8]);
    reveal_strlit("shortcut1");
    assert("shortcut4"@[8] != "shortcut1"@[8]);
    reveal_strlit("shortcut2");
    assert("shortcut4"@[8] != "shortcut2"@[8]);
    reveal_strlit("shortcut3");
    assert("shortcut4"@[8] != "shortcut3"@[8]);
    reveal_strlit("duplicate");
    assert("shortcut4"@[0] != "duplicate"@[0]);
    reveal_strlit("quick_tag");
    assert("shortcut4"@[0] != "quick_tag"@[0]);
    reveal_strlit("page_down");
    assert("shortcut4"@[0] != "page_down"@[0]);
    reveal_strlit("go_to_top");
    assert("shortcut4"@[0] != "go_to_top"@[0]);
    reveal_strlit("select_all");
    assert("shortcut4"@.len() != "select_all"@.len());
    reveal_strlit("start_stop");
    assert("shortcut4"@.len() != "start_stop"@.len());
    reveal_strlit("previous_tab");
    assert("shortcut4"@.len() != "previous_tab"@.len());
    reveal_strlit("go_to_bottom");
    assert("shortcut4"@.len() != "go_to_bottom"@.len());
}

proof fn lemma_help_key_shortcut5(kc: KeyConfig)
    ensures
        key_for_name("shortcut5"@, kc) == kc.shortcut5,
{
    reveal(key_for_name);
    reveal_strlit("shortcut5");
    reveal_strlit("up");
    assert("shortcut5"@.len() != "up"@.len());
    reveal_strlit("add");
    assert("shortcut5"@.len() != "add"@.len());
    reveal_strlit("log");
    assert("shortcut5"@.len() != "log"@.len());
    reveal_strlit("done");
    assert("shortcut5"@.len() != "done"@.len());
    reveal_strlit("zoom");
    assert("shortcut5"@.len() != "zoom"@.len());
    reveal_strlit("down");
    assert("shortcut5"@.len() != "down"@.len());
    reveal_strlit("undo");
    assert("shortcut5"@.len() != "undo"@.len());
    reveal_strlit("edit");
    assert("shortcut5"@.len() != "edit"@.len());
    reveal_strlit("quit");
    assert("shortcut5"@.len() != "quit"@.len());
    reveal_strlit("shell");
    assert("shortcut5"@.len() != "shell"@.len());
    reveal_strlit("delete");
    assert("shortcut5"@.len() != "delete"@.len());
    reveal_strlit("filter");
    assert("shortcut5"@.len() != "filter"@.len());
    reveal_strlit("select");
    assert("shortcut5"@.len() != "select"@.len());
    reveal_strlit("modify");
    assert("shortcut5"@.len() != "modify"@.len());
    reveal_strlit("refresh");
    assert("shortcut5"@.len() != "refresh"@.len());
    reveal_strlit("page_up");
    assert("shortcut5"@.len() != "page_up"@.len());
    reveal_strlit("next_tab");
    assert("shortcut5"@.len() != "next_tab"@.len());
    reveal_strlit("annotate");
    assert("shortcut5"@.len() != "annotate"@.len());
    reveal_strlit("shortcut0");
    assert("shortcut5"@[8] != "shortcut0"@[8]);
    reveal_strlit("shortcut1");
    assert("shortcut5"@[8] != "shortcut1"@[8]);
    reveal_strlit("shortcut2");
    assert("shortcut5"@[8] != "shortcut2"@[8]);
    reveal_strlit("shortcut3");
    assert("shortcut5"@[8] != "shortcut3"@[8]);
    reveal_strlit("shortcut4");
    assert("shortcut5"@[8] != "shortcut4"@[8]);
    reveal_strlit("duplicate");
    assert("shortcut5"@[0] != "duplicate"@[0]);
    reveal_strlit("quick_tag");
    assert("shortcut5"@[0] != "quick_tag"@[0]);
    reveal_strlit("page_down");
    assert("shortcut5"@[0] != "page_down"@[0]);
    reveal_strlit("go_to_top");
    assert("shortcut5"@[0] != "go_to_top"@[0]);
    reveal_strlit("select_all");
    assert("shortcut5"@.len() != "select_all"@.len());
    reveal_strlit("start_stop");
    assert("shortcut5"@.len() != "start_stop"@.len());
    reveal_strlit("previous_tab");
    assert("shortcut5"@.len() != "previous_tab"@.len());
    reveal_strlit("go_to_bottom");
    assert("shortcut5"@.len() != "go_to_bottom"@.len());
}

proof fn lemma_help_key_shortcut6(kc: KeyConfig)
    ensures
        key_for_name("shortcut6"@, kc) == kc.shortcut6,
{
    reveal(key_for_name);
    reveal_strlit("shortcut6");
    reveal_strlit("up");
    assert("shortcut6"@.len() != "up"@.len());
    reveal_strlit("add");
    assert("shortcut6"@.len() != "add"@.len());
    reveal_strlit("log");
    assert("shortcut6"@.len() != "log"@.len());
    reveal_strlit("done");
    assert("shortcut6"@.len() != "done"@.len());
    reveal_strlit("zoom");
    assert("shortcut6"@.len() != "zoom"@.len());
    reveal_strlit("down");
    assert("shortcut6"@.len() != "down"@.len());
    reveal_strlit("undo");
    assert("shortcut6"@.len() != "undo"@.len());
    reveal_strlit("edit");
    assert("shortcut6"@.len() != "edit"@.len());
    reveal_strlit("quit");
    assert("shortcut6"@.len() != "quit"@.len());
    reveal_strlit("shell");
    assert("shortcut6"@.len() != "shell"@.len());
    reveal_strlit("delete");
    assert("shortcut6"@.len() != "delete"@.len());
    reveal_strlit("filter");
    assert("shortcut6"@.len() != "filter"@.len());
    reveal_strlit("select");
    assert("shortcut6"@.len() != "select"@.len());
    reveal_strlit("modify");
    assert("shortcut6"@.len() != "modify"@.len());
    reveal_strlit("refresh");
    assert("shortcut6"@.len() != "refresh"@.len());
    reveal_strlit("page_up");
    assert("shortcut6"@.len() != "page_up"@.len());
    reveal_strlit("next_tab");
    assert("shortcut6"@.len() != "next_tab"@.len());
    reveal_strlit("annotate");
    assert("shortcut6"@.len() != "annotate"@.len());
    reveal_strlit("shortcut0");
    assert("shortcut6"@[8] != "shortcut0"@[8]);
    reveal_strlit("shortcut1");
    assert("shortcut6"@[8] != "shortcut1"@[8]);
    reveal_strlit("shortcut2");
    assert("shortcut6"@[8] != "shortcut2"@[8]);
    reveal_strlit("shortcut3");
    assert("shortcut6"@[8] != "shortcut3"@[8]);
    reveal_strlit("shortcut4");
    assert("shortcut6"@[8] != "shortcut4"@[8]);
    reveal_strlit("shortcut5");
    assert("shortcut6"@[8] != "shortcut5"@[8]);
    reveal_strlit("duplicate");
    assert("shortcut6"@[0] != "duplicate"@[0]);
    reveal_strlit("quick_tag");
    assert("shortcut6"@[0] != "quick_tag"@[0]);
    reveal_strlit("page_down");
    assert("shortcut6"@[0] != "page_down"@[0]);
    reveal_strlit("go_to_top");
    assert("shortcut6"@[0] != "go_to_top"@[0]);
    reveal_strlit("select_all");
    assert("shortcut6"@.len() != "select_all"@.len());
    reveal_strlit("start_stop");
    assert("shortcut6"@.len() != "start_stop"@.len());
    reveal_strlit("previous_tab");
    assert("shortcut6"@.len() != "previous_tab"@.len());
    reveal_strlit("go_to_bottom");
    assert("shortcut6"@.len() != "go_to_bottom"@.len());
}

proof fn lemma_help_key_shortcut7(kc: KeyConfig)
    ensures
        key_for_name("shortcut7"@, kc) == kc.shortcut7,
{
    reveal(key_for_name);
    reveal_strlit("shortcut7");
    reveal_strlit("up");
    assert("shortcut7"@.len() != "up"@.len());
    reveal_strlit("add");
    assert("shortcut7"@.len() != "add"@.len());
    reveal_strlit("log");
    assert("shortcut7"@.len() != "log"@.len());
    reveal_strlit("done");
    assert("shortcut7"@.len() != "done"@.len());
    reveal_strlit("zoom");
    assert("shortcut7"@.len() != "zoom"@.len());
    reveal_strlit("down");
    assert("shortcut7"@.len() != "down"@.len());
    reveal_strlit("undo");
    assert("shortcut7"@.len() != "undo"@.len());
    reveal_strlit("edit");
    assert("shortcut7"@.len() != "edit"@.len());
    reveal_strlit("quit");
    assert("shortcut7"@.len() != "quit"@.len());
    reveal_strlit("shell");
    assert("shortcut7"@.len() != "shell"@.len());
    reveal_strlit("delete");
    assert("shortcut7"@.len() != "delete"@.len());
    reveal_strlit("filter");
    assert("shortcut7"@.len() != "filter"@.len());
    reveal_strlit("select");
    assert("shortcut7"@.len() != "select"@.len());
    reveal_strlit("modify");
    assert("shortcut7"@.len() != "modify"@.len());
    reveal_strlit("refresh");
    assert("shortcut7"@.len() != "refresh"@.len());
    reveal_strlit("page_up");
    assert("shortcut7"@.len() != "page_up"@.len());
    reveal_strlit("next_tab");
    assert("shortcut7"@.len() != "next_tab"@.len());
    reveal_strlit("annotate");
    assert("shortcut7"@.len() != "annotate"@.len());
    reveal_strlit("shortcut0");
    assert("shortcut7"@[8] != "shortcut0"@[8]);
    reveal_strlit("shortcut1");
    assert("shortcut7"@[8] != "shortcut1"@[8]);
    reveal_strlit("shortcut2");
    assert("shortcut7"@[8] != "shortcut2"@[8]);
    reveal_strlit("shortcut3");
    assert("shortcut7"@[8] != "shortcut3"@[8]);
    reveal_strlit("shortcut4");
    assert("shortcut7"@[8] != "shortcut4"@[8]);
    reveal_strlit("shortcut5");
    assert("shortcut7"@[8] != "shortcut5"@[8]);
    reveal_strlit("shortcut6");
    assert("shortcut7"@[8] != "shortcut6"@[8]);
    reveal_strlit("duplicate");
    assert("shortcut7"@[0] != "duplicate"@[0]);
    reveal_strlit("quick_tag");
    assert("shortcut7"@[0] != "quick_tag"@[0]);
    reveal_strlit("page_down");
    assert("shortcut7"@[0] != "page_down"@[0]);
    reveal_strlit("go_to_top");
    assert("shortcut7"@[0] != "go_to_top"@[0]);
    reveal_strlit("select_all");
    assert("shortcut7"@.len() != "select_all"@.len());
    reveal_strlit("start_stop");
    assert("shortcut7"@.len() != "start_stop"@.len());
    reveal_strlit("previous_tab");
    assert("shortcut7"@.len() != "previous_tab"@.len());
    reveal_strlit("go_to_bottom");
    assert("shortcut7"@.len() != "go_to_bottom"@.len());
}

proof fn lemma_help_key_shortcut8(kc: KeyConfig)
    ensures
        key_for_name("shortcut8"@, kc) == kc.shortcut8,
{
    reveal(key_for_name);
    reveal_strlit("shortcut8");
    reveal_strlit("up");
    assert("shortcut8"@.len() != "up"@.len());
    reveal_strlit("add");
    assert("shortcut8"@.len() != "add"@.len());
    reveal_strlit("log");
    assert("shortcut8"@.len() != "log"@.len());
    reveal_strlit("done");
    assert("shortcut8"@.len() != "done"@.len());
    reveal_strlit("zoom");
    assert("shortcut8"@.len() != "zoom"@.len());
    reveal_strlit("down");
    assert("shortcut8"@.len() != "down"@.len());
    reveal_strlit("undo");
    assert("shortcut8"@.len() != "undo"@.len());
    reveal_strlit("edit");
    assert("shortcut8"@.len() != "edit"@.len());
    reveal_strlit("quit");
    assert("shortcut8"@.len() != "quit"@.len());
    reveal_strlit("shell");
    assert("shortcut8"@.len() != "shell"@.len());
    reveal_strlit("delete");
    assert("shortcut8"@.len() != "delete"@.len());
    reveal_strlit("filter");
    assert("shortcut8"@.len() != "filter"@.len());
    reveal_strlit("select");
    assert("shortcut8"@.len() != "select"@.len());
    reveal_strlit("modify");
    assert("shortcut8"@.len() != "modify"@.len());
    reveal_strlit("refresh");
    assert("shortcut8"@.len() != "refresh"@.len());
    reveal_strlit("page_up");
    assert("shortcut8"@.len() != "page_up"@.len());
    reveal_strlit("next_tab");
    assert("shortcut8"@.len() != "next_tab"@.len());
    reveal_strlit("annotate");
    assert("shortcut8"@.len() != "annotate"@.len());
    reveal_strlit("shortcut0");
    assert("shortcut8"@[8] != "shortcut0"@[8]);
    reveal_strlit("shortcut1");
    assert("shortcut8"@[8] != "shortcut1"@[8]);
    reveal_strlit("shortcut2");
    assert("shortcut8"@[8] != "shortcut2"@[8]);
    reveal_strlit("shortcut3");
    assert("shortcut8"@[8] != "shortcut3"@[8]);
    reveal_strlit("shortcut4");
    assert("shortcut8"@[8] != "shortcut4"@[8]);
    reveal_strlit("shortcut5");
    assert("shortcut8"@[8] != "shortcut5"@[8]);
    reveal_strlit("shortcut6");
    assert("shortcut8"@[8] != "shortcut6"@[8]);
    reveal_strlit("shortcut7");
    assert("shortcut8"@[8] != "shortcut7"@[8]);
    reveal_strlit("duplicate");
    assert("shortcut8"@[0] != "duplicate"@[0]);
    reveal_strlit("quick_tag");
    assert("shortcut8"@[0] != "quick_tag"@[0]);
    reveal_strlit("page_down");
    assert("shortcut8"@[0] != "page_down"@[0]);
    reveal_strlit("go_to_top");
    assert("shortcut8"@[0] != "go_to_top"@[0]);
    reveal_strlit("select_all");
    assert("shortcut8"@.len() != "select_all"@.len());
    reveal_strlit("start_stop");
    assert("shortcut8"@.len() != "start_stop"@.len());
    reveal_strlit("previous_tab");
    assert("shortcut8"@.len() != "previous_tab"@.len());
    reveal_strlit("go_to_bottom");
    assert("shortcut8"@.len() != "go_to_bottom"@.len());
}

proof fn lemma_help_key_shortcut9(kc: KeyConfig)
    ensures
        key_for_name("shortcut9"@, kc) == kc.shortcut9,
{
    reveal(key_for_name);
    reveal_strlit("shortcut9");
    reveal_strlit("up");
    assert("shortcut9"@.len() != "up"@.len());
    reveal_strlit("add");
    assert("shortcut9"@.len() != "add"@.len());
    reveal_strlit("log");
    assert("shortcut9"@.len() != "log"@.len());
    reveal_strlit("done");
    assert("shortcut9"@.len() != "done"@.len());
    reveal_strlit("zoom");
    assert("shortcut9"@.len() != "zoom"@.len());
    reveal_strlit("down");
    assert("shortcut9"@.len() != "down"@.len());
    reveal_strlit("undo");
    assert("shortcut9"@.len() != "undo"@.len());
    reveal_strlit("edit");
    assert("shortcut9"@.len() != "edit"@.len());
    reveal_strlit("quit");
    assert("shortcut9"@.len() != "quit"@.len());
    reveal_strlit("shell");
    assert("shortcut9"@.len() != "shell"@.len());
    reveal_strlit("delete");
    assert("shortcut9"@.len() != "delete"@.len());
    reveal_strlit("filter");
    assert("shortcut9"@.len() != "filter"@.len());
    reveal_strlit("select");
    assert("shortcut9"@.len() != "select"@.len());
    reveal_strlit("modify");
    assert("shortcut9"@.len() != "modify"@.len());
    reveal_strlit("refresh");
    assert("shortcut9"@.len() != "refresh"@.len());
    reveal_strlit("page_up");
    assert("shortcut9"@.len() != "page_up"@.len());
    reveal_strlit("next_tab");
    assert("shortcut9"@.len() != "next_tab"@.len());
    reveal_strlit("annotate");
    assert("shortcut9"@.len() != "annotate"@.len());
    reveal_strlit("shortcut0");
    assert("shortcut9"@[8] != "shortcut0"@[8]);
    reveal_strlit("shortcut1");
    assert("shortcut9"@[8] != "shortcut1"@[8]);
    reveal_strlit("shortcut2");
    assert("shortcut9"@[8] != "shortcut2"@[8]);
    reveal_strlit("shortcut3");
    assert("shortcut9"@[8] != "shortcut3"@[8]);
    reveal_strlit("shortcut4");
    assert("shortcut9"@[8] != "shortcut4"@[8]);
    reveal_strlit("shortcut5");
    assert("shortcut9"@[8] != "shortcut5"@[8]);
    reveal_strlit("shortcut6");
    assert("shortcut9"@[8] != "shortcut6"@[8]);
    reveal_strlit("shortcut7");
    assert("shortcut9"@[8] != "shortcut7"@[8]);
    reveal_strlit("shortcut8");
    assert("shortcut9"@[8] != "shortcut8"@[8]);
    reveal_strlit("duplicate");
    assert("shortcut9"@[0] != "duplicate"@[0]);
    reveal_strlit("quick_tag");
    assert("shortcut9"@[0] != "quick_tag"@[0]);
    reveal_strlit("page_down");
    assert("shortcut9"@[0] != "page_down"@[0]);
    reveal_strlit("go_to_top");
    assert("shortcut9"@[0] != "go_to_top"@[0]);
    reveal_strlit("select_all");
    assert("shortcut9"@.len() != "select_all"@.len());
    reveal_strlit("start_stop");
    assert("shortcut9"@.len() != "start_stop"@.len());
    reveal_strlit("previous_tab");
    assert("shortcut9"@.len() != "previous_tab"@.len());
    reveal_strlit("go_to_bottom");
    assert("shortcut9"@.len() != "go_to_bottom"@.len());
}

proof fn lemma_help_key_context_menu(kc: KeyConfig)
    ensures
        key_for_name("context_menu"@, kc) == kc.context_menu,
{
    reveal(key_for_name);
    reveal_strlit("context_menu");
    reveal_strlit("up");
    assert("context_menu"@.len() != "up"@.len());
    reveal_strlit("add");
    assert("context_menu"@.len() != "add"@.len());
    reveal_strlit("log");
    assert("context_menu"@.len() != "log"@.len());
    reveal_strlit("done");
    assert("context_menu"@.len() != "done"@.len());
    reveal_strlit("zoom");
    assert("context_menu"@.len() != "zoom"@.len());
    reveal_strlit("down");
    assert("context_menu"@.len() != "down"@.len());
    reveal_strlit("undo");
    assert("context_menu"@.len() != "undo"@.len());
    reveal_strlit("edit");
    assert("context_menu"@.len() != "edit"@.len());
    reveal_strlit("quit");
    assert("context_menu"@.len() != "quit"@.len());
    reveal_strlit("shell");
    assert("context_menu"@.len() != "shell"@.len());
    reveal_strlit("delete");
    assert("context_menu"@.len() != "delete"@.len());
    reveal_strlit("filter");
    assert("context_menu"@.len() != "filter"@.len());
    reveal_strlit("select");
    assert("context_menu"@.len() != "select"@.len());
    reveal_strlit("modify");
    assert("context_menu"@.len() != "modify"@.len());
    reveal_strlit("refresh");
    assert("context_menu"@.len() != "refresh"@.len());
    reveal_strlit("page_up");
    assert("context_menu"@.len() != "page_up"@.len());
    reveal_strlit("next_tab");
    assert("context_menu"@.len() != "next_tab"@.len());
    reveal_strlit("annotate");
    assert("context_menu"@.len() != "annotate"@.len());
    reveal_strlit("shortcut0");
    assert("context_menu"@.len() != "shortcut0"@.len());
    reveal_strlit("shortcut1");
    assert("context_menu"@.len() != "shortcut1"@.len());
    reveal_strlit("shortcut2");
    assert("context_menu"@.len() != "shortcut2"@.len());
    reveal_strlit("shortcut3");
    assert("context_menu"@.len() != "shortcut3"@.len());
    reveal_strlit("shortcut4");
    assert("context_menu"@.len() != "shortcut4"@.len());
    reveal_strlit("shortcut5");
    assert("context_menu"@.len() != "shortcut5"@.len());
    reveal_strlit("shortcut6");
    assert("context_menu"@.len() != "shortcut6"@.len());
    reveal_strlit("shortcut7");
    assert("context_menu"@.len() != "shortcut7"@.len());
    reveal_strlit("shortcut8");
    assert("context_menu"@.len() != "shortcut8"@.len());
    reveal_strlit("shortcut9");
    assert("context_menu"@.len() != "shortcut9"@.len());
    reveal_strlit("duplicate");
    assert("context_menu"@.len() != "duplicate"@.len());
    reveal_strlit("quick_tag");
    assert("context_menu"@.len() != "quick_tag"@.len());
    reveal_strlit("page_down");
    assert("context_menu"@.len() != "page_down"@.len());
    reveal_strlit("go_to_top");
    assert("context_menu"@.len() != "go_to_top"@.len());
    reveal_strlit("select_all");
    assert("context_menu"@.len() != "select_all"@.len());
    reveal_strlit("start_stop");
    assert("context_menu"@.len() != "start_stop"@.len());
    reveal_strlit("previous_tab");
    assert("context_menu"@[0] != "previous_tab"@[0]);
    reveal_strlit("go_to_bottom");
    assert("context_menu"@[0] != "go_to_bottom"@[0]);
}

proof fn lemma_help_key_help(kc: KeyConfig)
    ensures
        key_for_name("help"@, kc) == kc.help,
{
    reveal(key_for_name);
    reveal_strlit("help");
    reveal_strlit("up");
    assert("help"@.len() != "up"@.len());
    reveal_strlit("add");
    assert("help"@.len() != "add"@.len());
    reveal_strlit("log");
    assert("help"@.len() != "log"@.len());
    reveal_strlit("done");
    assert("help"@[0] != "done"@[0]);
    reveal_strlit("zoom");
    assert("help"@[0] != "zoom"@[0]);
    reveal_strlit("down");
    assert("help"@[0] != "down"@[0]);
    reveal_strlit("undo");
    assert("help"@[0] != "undo"@[0]);
    reveal_strlit("edit");
    assert("help"@[0] != "edit"@[0]);
    reveal_strlit("quit");
    assert("help"@[0] != "quit"@[0]);
    reveal_strlit("shell");
    assert("help"@.len() != "shell"@.len());
    reveal_strlit("delete");
    assert("help"@.len() != "delete"@.len());
    reveal_strlit("filter");
    assert("help"@.len() != "filter"@.len());
    reveal_strlit("select");
    assert("help"@.len() != "select"@.len());
    reveal_strlit("modify");
    assert("help"@.len() != "modify"@.len());
    reveal_strlit("refresh");
    assert("help"@.len() != "refresh"@.len());
    reveal_strlit("page_up");
    assert("help"@.len() != "page_up"@.len());
    reveal_strlit("next_tab");
    assert("help"@.len() != "next_tab"@.len());
    reveal_strlit("annotate");
    assert("help"@.len() != "annotate"@.len());
    reveal_strlit("shortcut0");
    assert("help"@.len() != "shortcut0"@.len());
    reveal_strlit("shortcut1");
    assert("help"@.len() != "shortcut1"@.len());
    reveal_strlit("shortcut2");
    assert("help"@.len() != "shortcut2"@.len());
    reveal_strlit("shortcut3");
    assert("help"@.len() != "shortcut3"@.len());
    reveal_strlit("shortcut4");
    assert("help"@.len() != "shortcut4"@.len());
    reveal_strlit("shortcut5");
    assert("help"@.len() != "shortcut5"@.len());
    reveal_strlit("shortcut6");
    assert("help"@.len() != "shortcut6"@.len());
    reveal_strlit("shortcut7");
    assert("help"@.len() != "shortcut7"@.len());
    reveal_strlit("shortcut8");
    assert("help"@.len() != "shortcut8"@.len());
    reveal_strlit("shortcut9");
    assert("help"@.len() != "shortcut9"@.len());
    reveal_strlit("duplicate");
    assert("help"@.len() != "duplicate"@.len());
    reveal_strlit("quick_tag");
    assert("help"@.len() != "quick_tag"@.len());
    reveal_strlit("page_down");
    assert("help"@.len() != "page_down"@.len());
    reveal_strlit("go_to_top");
    assert("help"@.len() != "go_to_top"@.len());
    reveal_strlit("select_all");
    assert("help"@.len() != "select_all"@.len());
    reveal_strlit("start_stop");
    assert("help"@.len() != "start_stop"@.len());
    reveal_strlit("previous_tab");
    assert("help"@.len() != "previous_tab"@.len());
    reveal_strlit("go_to_bottom");
    assert("help"@.len() != "go_to_bottom"@.len());
    reveal_strlit("context_menu");
    assert("help"@.len() != "context_menu"@.len());
}

proof fn lemma_help_key_scroll_down(kc: KeyConfig)
    ensures
        key_for_name("scroll_down"@, kc) == kc.scroll_down,
{
    reveal(key_for_name);
    reveal_strlit("scroll_down");
    reveal_strlit("up");
    assert("scroll_down"@.len() != "up"@.len());
    reveal_strlit("add");
    assert("scroll_down"@.len() != "add"@.len());
    reveal_strlit("log");
    assert("scroll_down"@.len() != "log"@.len());
    reveal_strlit("done");
    assert("scroll_down"@.len() != "done"@.len());
    reveal_strlit("zoom");
    assert("scroll_down"@.len() != "zoom"@.len());
    reveal_strlit("down");
    assert("scroll_down"@.len() != "down"@.len());
    reveal_strlit("undo");
    assert("scroll_down"@.len() != "undo"@.len());
    reveal_strlit("help");
    assert("scroll_down"@.len() != "help"@.len());
    reveal_strlit("edit");
    assert("scroll_down"@.len() != "edit"@.len());
    reveal_strlit("quit");
    assert("scroll_down"@.len() != "quit"@.len());
    reveal_strlit("shell");
    assert("scroll_down"@.len() != "shell"@.len());
    reveal_strlit("delete");
    assert("scroll_down"@.len() != "delete"@.len());
    reveal_strlit("filter");
    assert("scroll_down"@.len() != "filter"@.len());
    reveal_strlit("select");
    assert("scroll_down"@.len() != "select"@.len());
    reveal_strlit("modify");
    assert("scroll_down"@.len() != "modify"@.len());
    reveal_strlit("refresh");
    assert("scroll_down"@.len() != "refresh"@.len());
    reveal_strlit("page_up");
    assert("scroll_down"@.len() != "page_up"@.len());
    reveal_strlit("next_tab");
    assert("scroll_down"@.len() != "next_tab"@.len());
    reveal_strlit("annotate");
    assert("scroll_down"@.len() != "annotate"@.len());
    reveal_strlit("shortcut0");
    assert("scroll_down"@.len() != "shortcut0"@.len());
    reveal_strlit("shortcut1");
    assert("scroll_down"@.len() != "shortcut1"@.len());
    reveal_strlit("shortcut2");
    assert("scroll_down"@.len() != "shortcut2"@.len());
    reveal_strlit("shortcut3");
    assert("scroll_down"@.len() != "shortcut3"@.len());
    reveal_strlit("shortcut4");
    assert("scroll_down"@.len() != "shortcut4"@.len());
    reveal_strlit("shortcut5");
    assert("scroll_down"@.len() != "shortcut5"@.len());
    reveal_strlit("shortcut6");
    assert("scroll_down"@.len() != "shortcut6"@.len());
    reveal_strlit("shortcut7");
    assert("scroll_down"@.len() != "shortcut7"@.len());
    reveal_strlit("shortcut8");
    assert("scroll_down"@.len() != "shortcut8"@.len());
    reveal_strlit("shortcut9");
    assert("scroll_down"@.len() != "shortcut9"@.len());
    reveal_strlit("duplicate");
    assert("scroll_down"@.len() != "duplicate"@.len());
    reveal_strlit("quick_tag");
    assert("scroll_down"@.len() != "quick_tag"@.len());
    reveal_strlit("page_down");
    assert("scroll_down"@.len() != "page_down"@.len());
    reveal_strlit("go_to_top");
    assert("scroll_down"@.len() != "go_to_top"@.len());
    reveal_strlit("select_all");
    assert("scroll_down"@.len() != "select_all"@.len());
    reveal_strlit("start_stop");
    assert("scroll_down"@.len() != "start_stop"@.len());
    reveal_strlit("previous_tab");
    assert("scroll_down"@.len() != "previous_tab"@.len());
    reveal_strlit("go_to_bottom");
    assert("scroll_down"@.len() != "go_to_bottom"@.len());
    reveal_strlit("context_menu");
    assert("scroll_down"@.len() != "context_menu"@.len());
}

proof fn lemma_help_key_scroll_up(kc: KeyConfig)
    ensures
        key_for_name("scroll_up"@, kc) == kc.scroll_up,
{
    reveal(key_for_name);
    reveal_strlit("scroll_up");
    reveal_strlit("up");
    assert("scroll_up"@.len() != "up"@.len());
    reveal_strlit("add");
    assert("scroll_up"@.len() != "add"@.len());
    reveal_strlit("log");
    assert("scroll_up"@.len() != "log"@.len());
    reveal_strlit("done");
    assert("scroll_up"@.len() != "done"@.len());
    reveal_strlit("zoom");
    assert("scroll_up"@.len() != "zoom"@.len());
    reveal_strlit("down");
    assert("scroll_up"@.len() != "down"@.len());
    reveal_strlit("undo");
    assert("scroll_up"@.len() != "undo"@.len());
    reveal_strlit("help");
    assert("scroll_up"@.len() != "help"@.len());
    reveal_strlit("edit");
    assert("scroll_up"@.len() != "edit"@.len());
    reveal_strlit("quit");
    assert("scroll_up"@.len() != "quit"@.len());
    reveal_strlit("shell");
    assert("scroll_up"@.len() != "shell"@.len());
    reveal_strlit("delete");
    assert("scroll_up"@.len() != "delete"@.len());
    reveal_strlit("filter");
    assert("scroll_up"@.len() != "filter"@.len());
    reveal_strlit("select");
    assert("scroll_up"@.len() != "select"@.len());
    reveal_strlit("modify");
    assert("scroll_up"@.len() != "modify"@.len());
    reveal_strlit("refresh");
    assert("scroll_up"@.len() != "refresh"@.len());
    reveal_strlit("page_up");
    assert("scroll_up"@.len() != "page_up"@.len());
    reveal_strlit("next_tab");
    assert("scroll_up"@.len() != "next_tab"@.len());
    reveal_strlit("annotate");
    assert("scroll_up"@.len() != "annotate"@.len());
    reveal_strlit("shortcut0");
    assert("scroll_up"@[1] != "shortcut0"@[1]);
    reveal_strlit("shortcut1");
    assert("scroll_up"@[1] != "shortcut1"@[1]);
    reveal_strlit("shortcut2");
    assert("scroll_up"@[1] != "shortcut2"@[1]);
    reveal_strlit("shortcut3");
    assert("scroll_up"@[1] != "shortcut3"@[1]);
    reveal_strlit("shortcut4");
    assert("scroll_up"@[1] != "shortcut4"@[1]);
    reveal_strlit("shortcut5");
    assert("scroll_up"@[1] != "shortcut5"@[1]);
    reveal_strlit("shortcut6");
    assert("scroll_up"@[1] != "shortcut6"@[1]);
    reveal_strlit("shortcut7");
    assert("scroll_up"@[1] != "shortcut7"@[1]);
    reveal_strlit("shortcut8");
    assert("scroll_up"@[1] != "shortcut8"@[1]);
    reveal_strlit("shortcut9");
    assert("scroll_up"@[1] != "shortcut9"@[1]);
    reveal_strlit("duplicate");
    assert("scroll_up"@[0] != "duplicate"@[0]);
    reveal_strlit("quick_tag");
    assert("scroll_up"@[0] != "quick_tag"@[0]);
    reveal_strlit("page_down");
    assert("scroll_up"@[0] != "page_down"@[0]);
    reveal_strlit("go_to_top");
    assert("scroll_up"@[0] != "go_to_top"@[0]);
    reveal_strlit("select_all");
    assert("scroll_up"@.len() != "select_all"@.len());
    reveal_strlit("start_stop");
    assert("scroll_up"@.len() != "start_stop"@.len());
    reveal_strlit("scroll_down");
    assert("scroll_up"@.len() != "scroll_down"@.len());
    reveal_strlit("previous_tab");
    assert("scroll_up"@.len() != "previous_tab"@.len());
    reveal_strlit("go_to_bottom");
    assert("scroll_up"@.len() != "go_to_bottom"@.len());
    reveal_strlit("context_menu");
    assert("scroll_up"@.len() != "context_menu"@.len());
}

proof fn lemma_help_key_jump(kc: KeyConfig)
    ensures
        key_for_name("jump"@, kc) == kc.jump,
{
    reveal(key_for_name);
    reveal_strlit("jump");
    reveal_strlit("up");
    assert("jump"@.len() != "up"@.len());
    reveal_strlit("add");
    assert("jump"@.len() != "add"@.len());
    reveal_strlit("log");
    assert("jump"@.len() != "log"@.len());
    reveal_strlit("done");
    assert("jump"@[0] != "done"@[0]);
    reveal_strlit("zoom");
    assert("jump"@[0] != "zoom"@[0]);
    reveal_strlit("down");
    assert("jump"@[0] != "down"@[0]);
    reveal_strlit("undo");
    assert("jump"@[0] != "undo"@[0]);
    reveal_strlit("help");
    assert("jump"@[0] != "help"@[0]);
    reveal_strlit("edit");
    assert("jump"@[0] != "edit"@[0]);
    reveal_strlit("quit");
    assert("jump"@[0] != "quit"@[0]);
    reveal_strlit("shell");
    assert("jump"@.len() != "shell"@.len());
    reveal_strlit("delete");
    assert("jump"@.len() != "delete"@.len());
    reveal_strlit("filter");
    assert("jump"@.len() != "filter"@.len());
    reveal_strlit("select");
    assert("jump"@.len() != "select"@.len());
    reveal_strlit("modify");
    assert("jump"@.len() != "modify"@.len());
    reveal_strlit("refresh");
    assert("jump"@.len() != "refresh"@.len());
    reveal_strlit("page_up");
    assert("jump"@.len() != "page_up"@.len());
    reveal_strlit("next_tab");
    assert("jump"@.len() != "next_tab"@.len());
    reveal_strlit("annotate");
    assert("jump"@.len() != "annotate"@.len());
    reveal_strlit("shortcut0");
    assert("jump"@.len() != "shortcut0"@.len());
    reveal_strlit("shortcut1");
    assert("jump"@.len() != "shortcut1"@.len());
    reveal_strlit("shortcut2");
    assert("jump"@.len() != "shortcut2"@.len());
    reveal_strlit("shortcut3");
    assert("jump"@.len() != "shortcut3"@.len());
    reveal_strlit("shortcut4");
    assert("jump"@.len() != "shortcut4"@.len());
    reveal_strlit("shortcut5");
    assert("jump"@.len() != "shortcut5"@.len());
    reveal_strlit("shortcut6");
    assert("jump"@.len() != "shortcut6"@.len());
    reveal_strlit("shortcut7");
    assert("jump"@.len() != "shortcut7"@.len());
    reveal_strlit("shortcut8");
    assert("jump"@.len() != "shortcut8"@.len());
    reveal_strlit("shortcut9");
    assert("jump"@.len() != "shortcut9"@.len());
    reveal_strlit("duplicate");
    assert("jump"@.len() != "duplicate"@.len());
    reveal_strlit("quick_tag");
    assert("jump"@.len() != "quick_tag"@.len());
    reveal_strlit("page_down");
    assert("jump"@.len() != "page_down"@.len());
    reveal_strlit("go_to_top");
    assert("jump"@.len() != "go_to_top"@.len());
    reveal_strlit("scroll_up");
    assert("jump"@.len() != "scroll_up"@.len());
    reveal_strlit("select_all");
    assert("jump"@.len() != "select_all"@.len());
    reveal_strlit("start_stop");
    assert("jump"@.len() != "start_stop"@.len());
    reveal_strlit("scroll_down");
    assert("jump"@.len() != "scroll_down"@.len());
    reveal_strlit("previous_tab");
    assert("jump"@.len() != "previous_tab"@.len());
    reveal_strlit("go_to_bottom");
    assert("jump"@.len() != "go_to_bottom"@.len());
    reveal_strlit("context_menu");
    assert("jump"@.len() != "context_menu"@.len());
}

proof fn lemma_help_key_reset_filter(kc: KeyConfig)
    ensures
        key_for_name("reset_filter"@, kc) == kc.reset_filter,
{
    reveal(key_for_name);
    reveal_strlit("reset_filter");
    reveal_strlit("up");
    assert("reset_filter"@.len() != "up"@.len());
    reveal_strlit("add");
    assert("reset_filter"@.len() != "add"@.len());
    reveal_strlit("log");
    assert("reset_filter"@.len() != "log"@.len());
    reveal_strlit("done");
    assert("reset_filter"@.len() != "done"@.len());
    reveal_strlit("zoom");
    assert("reset_filter"@.len() != "zoom"@.len());
    reveal_strlit("down");
    assert("reset_filter"@.len() != "down"@.len());
    reveal_strlit("undo");
    assert("reset_filter"@.len() != "undo"@.len());
    reveal_strlit("help");
    assert("reset_filter"@.len() != "help"@.len());
    reveal_strlit("jump");
    assert("reset_filter"@.len() != "jump"@.len());
    reveal_strlit("edit");
    assert("reset_filter"@.len() != "edit"@.len());
    reveal_strlit("quit");
    assert("reset_filter"@.len() != "quit"@.len());
    reveal_strlit("shell");
    assert("reset_filter"@.len() != "shell"@.len());
    reveal_strlit("delete");
    assert("reset_filter"@.len() != "delete"@.len());
    reveal_strlit("filter");
    assert("reset_filter"@.len() != "filter"@.len());
    reveal_strlit("select");
    assert("reset_filter"@.len() != "select"@.len());
    reveal_strlit("modify");
    assert("reset_filter"@.len() != "modify"@.len());
    reveal_strlit("refresh");
    assert("reset_filter"@.len() != "refresh"@.len());
    reveal_strlit("page_up");
    assert("reset_filter"@.len() != "page_up"@.len());
    reveal_strlit("next_tab");
    assert("reset_filter"@.len() != "next_tab"@.len());
    reveal_strlit("annotate");
    assert("reset_filter"@.len() != "annotate"@.len());
    reveal_strlit("shortcut0");
    assert("reset_filter"@.len() != "shortcut0"@.len());
    reveal_strlit("shortcut1");
    assert("reset_filter"@.len() != "shortcut1"@.len());
    reveal_strlit("shortcut2");
    assert("reset_filter"@.len() != "shortcut2"@.len());
    reveal_strlit("shortcut3");
    assert("reset_filter"@.len() != "shortcut3"@.len());
    reveal_strlit("shortcut4");
    assert("reset_filter"@.len() != "shortcut4"@.len());
    reveal_strlit("shortcut5");
    assert("reset_filter"@.len() != "shortcut5"@.len());
    reveal_strlit("shortcut6");
    assert("reset_filter"@.len() != "shortcut6"@.len());
    reveal_strlit("shortcut7");
    assert("reset_filter"@.len() != "shortcut7"@.len());
    reveal_strlit("shortcut8");
    assert("reset_filter"@.len() != "shortcut8"@.len());
    reveal_strlit("shortcut9");
    assert("reset_filter"@.len() != "shortcut9"@.len());
    reveal_strlit("duplicate");
    assert("reset_filter"@.len() != "duplicate"@.len());
    reveal_strlit("quick_tag");
    assert("reset_filter"@.len() != "quick_tag"@.len());
    reveal_strlit("page_down");
    assert("reset_filter"@.len() != "page_down"@.len());
    reveal_strlit("go_to_top");
    assert("reset_filter"@.len() != "go_to_top"@.len());
    reveal_strlit("scroll_up");
    assert("reset_filter"@.len() != "scroll_up"@.len());
    reveal_strlit("select_all");
    assert("reset_filter"@.len() != "select_all"@.len());
    reveal_strlit("start_stop");
    assert("reset_filter"@.len() != "start_stop"@.len());
    reveal_strlit("scroll_down");
    assert("reset_filter"@.len() != "scroll_down"@.len());
    reveal_strlit("previous_tab");
    assert("reset_filter"@[0] != "previous_tab"@[0]);
    reveal_strlit("go_to_bottom");
    assert("reset_filter"@[0] != "go_to_bottom"@[0]);
    reveal_strlit("context_menu");
    assert("reset_filter"@[0] != "context_menu"@[0]);
}

proof fn lemma_help_key_priority_h(kc: KeyConfig)
    ensures
        key_for_name("priority_h"@, kc) == kc.priority_h,
{
    reveal(key_for_name);
    reveal_strlit("priority_h");
    reveal_strlit("up");
    assert("priority_h"@.len() != "up"@.len());
    reveal_strlit("add");
    assert("priority_h"@.len() != "add"@.len());
    reveal_strlit("log");
    assert("priority_h"@.len() != "log"@.len());
    reveal_strlit("done");
    assert("priority_h"@.len() != "done"@.len());
    reveal_strlit("zoom");
    assert("priority_h"@.len() != "zoom"@.len());
    reveal_strlit("down");
    assert("priority_h"@.len() != "down"@.len());
    reveal_strlit("undo");
    assert("priority_h"@.len() != "undo"@.len());
    reveal_strlit("help");
    assert("priority_h"@.len() != "help"@.len());
    reveal_strlit("jump");
    assert("priority_h"@.len() != "jump"@.len());
    reveal_strlit("edit");
    assert("priority_h"@.len() != "edit"@.len());
    reveal_strlit("quit");
    assert("priority_h"@.len() != "quit"@.len());
    reveal_strlit("shell");
    assert("priority_h"@.len() != "shell"@.len());
    reveal_strlit("delete");
    assert("priority_h"@.len() != "delete"@.len());
    reveal_strlit("filter");
    assert("priority_h"@.len() != "filter"@.len());
    reveal_strlit("select");
    assert("priority_h"@.len() != "select"@.len());
    reveal_strlit("modify");
    assert("priority_h"@.len() != "modify"@.len());
    reveal_strlit("refresh");
    assert("priority_h"@.len() != "refresh"@.len());
    reveal_strlit("page_up");
    assert("priority_h"@.len() != "page_up"@.len());
    reveal_strlit("next_tab");
    assert("priority_h"@.len() != "next_tab"@.len());
    reveal_strlit("annotate");
    assert("priority_h"@.len() != "annotate"@.len());
    reveal_strlit("shortcut0");
    assert("priority_h"@.len() != "shortcut0"@.len());
    reveal_strlit("shortcut1");
    assert("priority_h"@.len() != "shortcut1"@.len());
    reveal_strlit("shortcut2");
    assert("priority_h"@.len() != "shortcut2"@.len());
    reveal_strlit("shortcut3");
    assert("priority_h"@.len() != "shortcut3"@.len());
    reveal_strlit("shortcut4");
    assert("priority_h"@.len() != "shortcut4"@.len());
    reveal_strlit("shortcut5");
    assert("priority_h"@.len() != "shortcut5"@.len());
    reveal_strlit("shortcut6");
    assert("priority_h"@.len() != "shortcut6"@.len());
    reveal_strlit("shortcut7");
    assert("priority_h"@.len() != "shortcut7"@.len());
    reveal_strlit("shortcut8");
    assert("priority_h"@.len() != "shortcut8"@.len());
    reveal_strlit("shortcut9");
    assert("priority_h"@.len() != "shortcut9"@.len());
    reveal_strlit("duplicate");
    assert("priority_h"@.len() != "duplicate"@.len());
    reveal_strlit("quick_tag");
    assert("priority_h"@.len() != "quick_tag"@.len());
    reveal_strlit("page_down");
    assert("priority_h"@.len() != "page_down"@.len());
    reveal_strlit("go_to_top");
    assert("priority_h"@.len() != "go_to_top"@.len());
    reveal_strlit("scroll_up");
    assert("priority_h"@.len() != "scroll_up"@.len());
    reveal_strlit("select_all");
    assert("priority_h"@[0] != "select_all"@[0]);
    reveal_strlit("start_stop");
    assert("priority_h"@[0] != "start_stop"@[0]);
    reveal_strlit("scroll_down");
    assert("priority_h"@.len() != "scroll_down"@.len());
    reveal_strlit("previous_tab");
    assert("priority_h"@.len() != "previous_tab"@.len());
    reveal_strlit("go_to_bottom");
    assert("priority_h"@.len() != "go_to_bottom"@.len());
    reveal_strlit("reset_filter");
    assert("priority_h"@.len() != "reset_filter"@.len());
    reveal_strlit("context_menu");
    assert("priority_h"@.len() != "context_menu"@.len());
}

proof fn lemma_help_key_priority_m(kc: KeyConfig)
    ensures
        key_for_name("priority_m"@, kc) == kc.priority_m,
{
    reveal(key_for_name);
    reveal_strlit("priority_m");
    reveal_strlit("up");
    assert("priority_m"@.len() != "up"@.len());
    reveal_strlit("add");
    assert("priority_m"@.len() != "add"@.len());
    reveal_strlit("log");
    assert("priority_m"@.len() != "log"@.len());
    reveal_strlit("done");
    assert("priority_m"@.len() != "done"@.len());
    reveal_strlit("zoom");
    assert("priority_m"@.len() != "zoom"@.len());
    reveal_strlit("down");
    assert("priority_m"@.len() != "down"@.len());
    reveal_strlit("undo");
    assert("priority_m"@.len() != "undo"@.len());
    reveal_strlit("help");
    assert("priority_m"@.len() != "help"@.len());
    reveal_strlit("jump");
    assert("priority_m"@.len() != "jump"@.len());
    reveal_strlit("edit");
    assert("priority_m"@.len() != "edit"@.len());
    reveal_strlit("quit");
    assert("priority_m"@.len() != "quit"@.len());
    reveal_strlit("shell");
    assert("priority_m"@.len() != "shell"@.len());
    reveal_strlit("delete");
    assert("priority_m"@.len() != "delete"@.len());
    reveal_strlit("filter");
    assert("priority_m"@.len() != "filter"@.len());
    reveal_strlit("select");
    assert("priority_m"@.len() != "select"@.len());
    reveal_strlit("modify");
    assert("priority_m"@.len() != "modify"@.len());
    reveal_strlit("refresh");
    assert("priority_m"@.len() != "refresh"@.len());
    reveal_strlit("page_up");
    assert("priority_m"@.len() != "page_up"@.len());
    reveal_strlit("next_tab");
    assert("priority_m"@.len() != "next_tab"@.len());
    reveal_strlit("annotate");
    assert("priority_m"@.len() != "annotate"@.len());
    reveal_strlit("shortcut0");
    assert("priority_m"@.len() != "shortcut0"@.len());
    reveal_strlit("shortcut1");
    assert("priority_m"@.len() != "shortcut1"@.len());
    reveal_strlit("shortcut2");
    assert("priority_m"@.len() != "shortcut2"@.len());
    reveal_strlit("shortcut3");
    assert("priority_m"@.len() != "shortcut3"@.len());
    reveal_strlit("shortcut4");
    assert("priority_m"@.len() != "shortcut4"@.len());
    reveal_strlit("shortcut5");
    assert("priority_m"@.len() != "shortcut5"@.len());
    reveal_strlit("shortcut6");
    assert("priority_m"@.len() != "shortcut6"@.len());
    reveal_strlit("shortcut7");
    assert("priority_m"@.len() != "shortcut7"@.len());
    reveal_strlit("shortcut8");
    assert("priority_m"@.len() != "shortcut8"@.len());
    reveal_strlit("shortcut9");
    assert("priority_m"@.len() != "shortcut9"@.len());
    reveal_strlit("duplicate");
    assert("priority_m"@.len() != "duplicate"@.len());
    reveal_strlit("quick_tag");
    assert("priority_m"@.len() != "quick_tag"@.len());
    reveal_strlit("page_down");
    assert("priority_m"@.len() != "page_down"@.len());
    reveal_strlit("go_to_top");
    assert("priority_m"@.len() != "go_to_top"@.len());
    reveal_strlit("scroll_up");
    assert("priority_m"@.len() != "scroll_up"@.len());
    reveal_strlit("priority_h");
    assert("priority_m"@[9] != "priority_h"@[9]);
    reveal_strlit("select_all");
    assert("priority_m"@[0] != "select_all"@[0]);
    reveal_strlit("start_stop");
    assert("priority_m"@[0] != "start_stop"@[0]);
    reveal_strlit("scroll_down");
    assert("priority_m"@.len() != "scroll_down"@.len());
    reveal_strlit("previous_tab");
    assert("priority_m"@.len() != "previous_tab"@.len());
    reveal_strlit("go_to_bottom");
    assert("priority_m"@.len() != "go_to_bottom"@.len());
    reveal_strlit("reset_filter");
    assert("priority_m"@.len() != "reset_filter"@.len());
    reveal_strlit("context_menu");
    assert("priority_m"@.len() != "context_menu"@.len());
}

proof fn lemma_help_key_priority_l(kc: KeyConfig)
    ensures
        key_for_name("priority_l"@, kc) == kc.priority_l,
{
    reveal(key_for_name);
    reveal_strlit("priority_l");
    reveal_strlit("up");
    assert("priority_l"@.len() != "up"@.len());
    reveal_strlit("add");
    assert("priority_l"@.len() != "add"@.len());
    reveal_strlit("log");
    assert("priority_l"@.len() != "log"@.len());
    reveal_strlit("done");
    assert("priority_l"@.len() != "done"@.len());
    reveal_strlit("zoom");
    assert("priority_l"@.len() != "zoom"@.len());
    reveal_strlit("down");
    assert("priority_l"@.len() != "down"@.len());
    reveal_strlit("undo");
    assert("priority_l"@.len() != "undo"@.len());
    reveal_strlit("help");
    assert("priority_l"@.len() != "help"@.len());
    reveal_strlit("jump");
    assert("priority_l"@.len() != "jump"@.len());
    reveal_strlit("edit");
    assert("priority_l"@.len() != "edit"@.len());
    reveal_strlit("quit");
    assert("priority_l"@.len() != "quit"@.len());
    reveal_strlit("shell");
    assert("priority_l"@.len() != "shell"@.len());
    reveal_strlit("delete");
    assert("priority_l"@.len() != "delete"@.len());
    reveal_strlit("filter");
    assert("priority_l"@.len() != "filter"@.len());
    reveal_strlit("select");
    assert("priority_l"@.len() != "select"@.len());
    reveal_strlit("modify");
    assert("priority_l"@.len() != "modify"@.len());
    reveal_strlit("refresh");
    assert("priority_l"@.len() != "refresh"@.len());
    reveal_strlit("page_up");
    assert("priority_l"@.len() != "page_up"@.len());
    reveal_strlit("next_tab");
    assert("priority_l"@.len() != "next_tab"@.len());
    reveal_strlit("annotate");
    assert("priority_l"@.len() != "annotate"@.len());
    reveal_strlit("shortcut0");
    assert("priority_l"@.len() != "shortcut0"@.len());
    reveal_strlit("shortcut1");
    assert("priority_l"@.len() != "shortcut1"@.len());
    reveal_strlit("shortcut2");
    assert("priority_l"@.len() != "shortcut2"@.len());
    reveal_strlit("shortcut3");
    assert("priority_l"@.len() != "shortcut3"@.len());
    reveal_strlit("shortcut4");
    assert("priority_l"@.len() != "shortcut4"@.len());
    reveal_strlit("shortcut5");
    assert("priority_l"@.len() != "shortcut5"@.len());
    reveal_strlit("shortcut6");
    assert("priority_l"@.len() != "shortcut6"@.len());
    reveal_strlit("shortcut7");
    assert("priority_l"@.len() != "shortcut7"@.len());
    reveal_strlit("shortcut8");
    assert("priority_l"@.len() != "shortcut8"@.len());
    reveal_strlit("shortcut9");
    assert("priority_l"@.len() != "shortcut9"@.len());
    reveal_strlit("duplicate");
    assert("priority_l"@.len() != "duplicate"@.len());
    reveal_strlit("quick_tag");
    assert("priority_l"@.len() != "quick_tag"@.len());
    reveal_strlit("page_down");
    assert("priority_l"@.len() != "page_down"@.len());
    reveal_strlit("go_to_top");
    assert("priority_l"@.len() != "go_to_top"@.len());
    reveal_strlit("scroll_up");
    assert("priority_l"@.len() != "scroll_up"@.len());
    reveal_strlit("priority_h");
    assert("priority_l"@[9] != "priority_h"@[9]);
    reveal_strlit("select_all");
    assert("priority_l"@[0] != "select_all"@[0]);
    reveal_strlit("priority_m");
    assert("priority_l"@[9] != "priority_m"@[9]);
    reveal_strlit("start_stop");
    assert("priority_l"@[0] != "start_stop"@[0]);
    reveal_strlit("scroll_down");
    assert("priority_l"@.len() != "scroll_down"@.len());
    reveal_strlit("previous_tab");
    assert("priority_l"@.len() != "previous_tab"@.len());
    reveal_strlit("go_to_bottom");
    assert("priority_l"@.len() != "go_to_bottom"@.len());
    reveal_strlit("reset_filter");
    assert("priority_l"@.len() != "reset_filter"@.len());
    reveal_strlit("context_menu");
    assert("priority_l"@.len() != "context_menu"@.len());
}

proof fn lemma_help_key_priority_n(kc: KeyConfig)
    ensures
        key_for_name("priority_n"@, kc) == kc.priority_n,
{
    reveal(key_for_name);
    reveal_strlit("priority_n");
    reveal_strlit("up");
    assert("priority_n"@.len() != "up"@.len());
    reveal_strlit("add");
    assert("priority_n"@.len() != "add"@.len());
    reveal_strlit("log");
    assert("priority_n"@.len() != "log"@.len());
    reveal_strlit("done");
    assert("priority_n"@.len() != "done"@.len());
    reveal_strlit("zoom");
    assert("priority_n"@.len() != "zoom"@.len());
    reveal_strlit("down");
    assert("priority_n"@.len() != "down"@.len());
    reveal_strlit("undo");
    assert("priority_n"@.len() != "undo"@.len());
    reveal_strlit("help");
    assert("priority_n"@.len() != "help"@.len());
    reveal_strlit("jump");
    assert("priority_n"@.len() != "jump"@.len());
    reveal_strlit("edit");
    assert("priority_n"@.len() != "edit"@.len());
    reveal_strlit("quit");
    assert("priority_n"@.len() != "quit"@.len());
    reveal_strlit("shell");
    assert("priority_n"@.len() != "shell"@.len());
    reveal_strlit("delete");
    assert("priority_n"@.len() != "delete"@.len());
    reveal_strlit("filter");
    assert("priority_n"@.len() != "filter"@.len());
    reveal_strlit("select");
    assert("priority_n"@.len() != "select"@.len());
    reveal_strlit("modify");
    assert("priority_n"@.len() != "modify"@.len());
    reveal_strlit("refresh");
    assert("priority_n"@.len() != "refresh"@.len());
    reveal_strlit("page_up");
    assert("priority_n"@.len() != "page_up"@.len());
    reveal_strlit("next_tab");
    assert("priority_n"@.len() != "next_tab"@.len());
    reveal_strlit("annotate");
    assert("priority_n"@.len() != "annotate"@.len());
    reveal_strlit("shortcut0");
    assert("priority_n"@.len() != "shortcut0"@.len());
    reveal_strlit("shortcut1");
    assert("priority_n"@.len() != "shortcut1"@.len());
    reveal_strlit("shortcut2");
    assert("priority_n"@.len() != "shortcut2"@.len());
    reveal_strlit("shortcut3");
    assert("priority_n"@.len() != "shortcut3"@.len());
    reveal_strlit("shortcut4");
    assert("priority_n"@.len() != "shortcut4"@.len());
    reveal_strlit("shortcut5");
    assert("priority_n"@.len() != "shortcut5"@.len());
    reveal_strlit("shortcut6");
    assert("priority_n"@.len() != "shortcut6"@.len());
    reveal_strlit("shortcut7");
    assert("priority_n"@.len() != "shortcut7"@.len());
    reveal_strlit("shortcut8");
    assert("priority_n"@.len() != "shortcut8"@.len());
    reveal_strlit("shortcut9");
    assert("priority_n"@.len() != "shortcut9"@.len());
    reveal_strlit("duplicate");
    assert("priority_n"@.len() != "duplicate"@.len());
    reveal_strlit("quick_tag");
    assert("priority_n"@.len() != "quick_tag"@.len());
    reveal_strlit("page_down");
    assert("priority_n"@.len() != "page_down"@.len());
    reveal_strlit("go_to_top");
    assert("priority_n"@.len() != "go_to_top"@.len());
    reveal_strlit("scroll_up");
    assert("priority_n"@.len() != "scroll_up"@.len());
    reveal_strlit("priority_h");
    assert("priority_n"@[9] != "priority_h"@[9]);
    reveal_strlit("priority_l");
    assert("priority_n"@[9] != "priority_l"@[9]);
    reveal_strlit("select_all");
    assert("priority_n"@[0] != "select_all"@[0]);
    reveal_strlit("priority_m");
    assert("priority_n"@[9] != "priority_m"@[9]);
    reveal_strlit("start_stop");
    assert("priority_n"@[0] != "start_stop"@[0]);
    reveal_strlit("scroll_down");
    assert("priority_n"@.len() != "scroll_down"@.len());
    reveal_strlit("previous_tab");
    assert("priority_n"@.len() != "previous_tab"@.len());
    reveal_strlit("go_to_bottom");
    assert("priority_n"@.len() != "go_to_bottom"@.len());
    reveal_strlit("reset_filter");
    assert("priority_n"@.len() != "reset_filter"@.len());
    reveal_strlit("context_menu");
    assert("priority_n"@.len() != "context_menu"@.len());
}

proof fn lemma_help_key_priority_up(kc: KeyConfig)
    ensures
        key_for_name("priority_up"@, kc) == kc.priority_up,
{
    reveal(key_for_name);
    reveal_strlit("priority_up");
    reveal_strlit("up");
    assert("priority_up"@.len() != "up"@.len());
    reveal_strlit("add");
    assert("priority_up"@.len() != "add"@.len());
    reveal_strlit("log");
    assert("priority_up"@.len() != "log"@.len());
    reveal_strlit("done");
    assert("priority_up"@.len() != "done"@.len());
    reveal_strlit("zoom");
    assert("priority_up"@.len() != "zoom"@.len());
    reveal_strlit("down");
    assert("priority_up"@.len() != "down"@.len());
    reveal_strlit("undo");
    assert("priority_up"@.len() != "undo"@.len());
    reveal_strlit("help");
    assert("priority_up"@.len() != "help"@.len());
    reveal_strlit("jump");
    assert("priority_up"@.len() != "jump"@.len());
    reveal_strlit("edit");
    assert("priority_up"@.len() != "edit"@.len());
    reveal_strlit("quit");
    assert("priority_up"@.len() != "quit"@.len());
    reveal_strlit("shell");
    assert("priority_up"@.len() != "shell"@.len());
    reveal_strlit("delete");
    assert("priority_up"@.len() != "delete"@.len());
    reveal_strlit("filter");
    assert("priority_up"@.len() != "filter"@.len());
    reveal_strlit("select");
    assert("priority_up"@.len() != "select"@.len());
    reveal_strlit("modify");
    assert("priority_up"@.len() != "modify"@.len());
    reveal_strlit("refresh");
    assert("priority_up"@.len() != "refresh"@.len());
    reveal_strlit("page_up");
    assert("priority_up"@.len() != "page_up"@.len());
    reveal_strlit("next_tab");
    assert("priority_up"@.len() != "next_tab"@.len());
    reveal_strlit("annotate");
    assert("priority_up"@.len() != "annotate"@.len());
    reveal_strlit("shortcut0");
    assert("priority_up"@.len() != "shortcut0"@.len());
    reveal_strlit("shortcut1");
    assert("priority_up"@.len() != "shortcut1"@.len());
    reveal_strlit("shortcut2");
    assert("priority_up"@.len() != "shortcut2"@.len());
    reveal_strlit("shortcut3");
    assert("priority_up"@.len() != "shortcut3"@.len());
    reveal_strlit("shortcut4");
    assert("priority_up"@.len() != "shortcut4"@.len());
    reveal_strlit("shortcut5");
    assert("priority_up"@.len() != "shortcut5"@.len());
    reveal_strlit("shortcut6");
    assert("priority_up"@.len() != "shortcut6"@.len());
    reveal_strlit("shortcut7");
    assert("priority_up"@.len() != "shortcut7"@.len());
    reveal_strlit("shortcut8");
    assert("priority_up"@.len() != "shortcut8"@.len());
    reveal_strlit("shortcut9");
    assert("priority_up"@.len() != "shortcut9"@.len());
    reveal_strlit("duplicate");
    assert("priority_up"@.len() != "duplicate"@.len());
    reveal_strlit("quick_tag");
    assert("priority_up"@.len() != "quick_tag"@.len());
    reveal_strlit("page_down");
    assert("priority_up"@.len() != "page_down"@.len());
    reveal_strlit("go_to_top");
    assert("priority_up"@.len() != "go_to_top"@.len());
    reveal_strlit("scroll_up");
    assert("priority_up"@.len() != "scroll_up"@.len());
    reveal_strlit("priority_h");
    assert("priority_up"@.len() != "priority_h"@.len());
    reveal_strlit("priority_l");
    assert("priority_up"@.len() != "priority_l"@.len());
    reveal_strlit("select_all");
    assert("priority_up"@.len() != "select_all"@.len());
    reveal_strlit("priority_m");
    assert("priority_up"@.len() != "priority_m"@.len());
    reveal_strlit("priority_n");
    assert("priority_up"@.len() != "priority_n"@.len());
    reveal_strlit("start_stop");
    assert("priority_up"@.len() != "start_stop"@.len());
    reveal_strlit("scroll_down");
    assert("priority_up"@[0] != "scroll_down"@[0]);
    reveal_strlit("previous_tab");
    assert("priority_up"@.len() != "previous_tab"@.len());
    reveal_strlit("go_to_bottom");
    assert("priority_up"@.len() != "go_to_bottom"@.len());
    reveal_strlit("reset_filter");
    assert("priority_up"@.len() != "reset_filter"@.len());
    reveal_strlit("context_menu");
    assert("priority_up"@.len() != "context_menu"@.len());
}

proof fn lemma_help_key_priority_down(kc: KeyConfig)
    ensures
        key_for_name("priority_down"@, kc) == kc.priority_down,
{
    reveal(key_for_name);
    reveal_strlit("priority_down");
    reveal_strlit("up");
    assert("priority_down"@.len() != "up"@.len());
    reveal_strlit("add");
    assert("priority_down"@.len() != "add"@.len());
    reveal_strlit("log");
    assert("priority_down"@.len() != "log"@.len());
    reveal_strlit("done");
    assert("priority_down"@.len() != "done"@.len());
    reveal_strlit("zoom");
    assert("priority_down"@.len() != "zoom"@.len());
    reveal_strlit("down");
    assert("priority_down"@.len() != "down"@.len());
    reveal_strlit("undo");
    assert("priority_down"@.len() != "undo"@.len());
    reveal_strlit("help");
    assert("priority_down"@.len() != "help"@.len());
    reveal_strlit("jump");
    assert("priority_down"@.len() != "jump"@.len());
    reveal_strlit("edit");
    assert("priority_down"@.len() != "edit"@.len());
    reveal_strlit("quit");
    assert("priority_down"@.len() != "quit"@.len());
    reveal_strlit("shell");
    assert("priority_down"@.len() != "shell"@.len());
    reveal_strlit("delete");
    assert("priority_down"@.len() != "delete"@.len());
    reveal_strlit("filter");
    assert("priority_down"@.len() != "filter"@.len());
    reveal_strlit("select");
    assert("priority_down"@.len() != "select"@.len());
    reveal_strlit("modify");
    assert("priority_down"@.len() != "modify"@.len());
    reveal_strlit("refresh");
    assert("priority_down"@.len() != "refresh"@.len());
    reveal_strlit("page_up");
    assert("priority_down"@.len() != "page_up"@.len());
    reveal_strlit("next_tab");
    assert("priority_down"@.len() != "next_tab"@.len());
    reveal_strlit("annotate");
    assert("priority_down"@.len() != "annotate"@.len());
    reveal_strlit("shortcut0");
    assert("priority_down"@.len() != "shortcut0"@.len());
    reveal_strlit("shortcut1");
    assert("priority_down"@.len() != "shortcut1"@.len());
    reveal_strlit("shortcut2");
    assert("priority_down"@.len() != "shortcut2"@.len());
    reveal_strlit("shortcut3");
    assert("priority_down"@.len() != "shortcut3"@.len());
    reveal_strlit("shortcut4");
    assert("priority_down"@.len() != "shortcut4"@.len());
    reveal_strlit("shortcut5");
    assert("priority_down"@.len() != "shortcut5"@.len());
    reveal_strlit("shortcut6");
    assert("priority_down"@.len() != "shortcut6"@.len());
    reveal_strlit("shortcut7");
    assert("priority_down"@.len() != "shortcut7"@.len());
    reveal_strlit("shortcut8");
    assert("priority_down"@.len() != "shortcut8"@.len());
    reveal_strlit("shortcut9");
    assert("priority_down"@.len() != "shortcut9"@.len());
    reveal_strlit("duplicate");
    assert("priority_down"@.len() != "duplicate"@.len());
    reveal_strlit("quick_tag");
    assert("priority_down"@.len() != "quick_tag"@.len());
    reveal_strlit("page_down");
    assert("priority_down"@.len() != "page_down"@.len());
    reveal_strlit("go_to_top");
    assert("priority_down"@.len() != "go_to_top"@.len());
    reveal_strlit("scroll_up");
    assert("priority_down"@.len() != "scroll_up"@.len());
    reveal_strlit("priority_h");
    assert("priority_down"@.len() != "priority_h"@.len());
    reveal_strlit("priority_l");
    assert("priority_down"@.len() != "priority_l"@.len());
    reveal_strlit("select_all");
    assert("priority_down"@.len() != "select_all"@.len());
    reveal_strlit("priority_m");
    assert("priority_down"@.len() != "priority_m"@.len());
    reveal_strlit("priority_n");
    assert("priority_down"@.len() != "priority_n"@.len());
    reveal_strlit("start_stop");
    assert("priority_down"@.len() != "start_stop"@.len());
    reveal_strlit("scroll_down");
    assert("priority_down"@.len() != "scroll_down"@.len());
    reveal_strlit("priority_up");
    assert("priority_down"@.len() != "priority_up"@.len());
    reveal_strlit("previous_tab");
    assert("priority_down"@.len() != "previous_tab"@.len());
    reveal_strlit("go_to_bottom");
    assert("priority_down"@.len() != "go_to_bottom"@.len());
    reveal_strlit("reset_filter");
    assert("priority_down"@.len() != "reset_filter"@.len());
    reveal_strlit("context_menu");
    assert("priority_down"@.len() != "context_menu"@.len());
}

/// The key that the help screen shows for an action name is the key that
/// the configuration binds to the action of that name.
pub proof fn law_help_key_names(kc: KeyConfig)
    ensures
        key_for_name("add"@, kc) == kc.add,
        key_for_name("annotate"@, kc) == kc.annotate,
        key_for_name("context_menu"@, kc) == kc.context_menu,
        key_for_name("delete"@, kc) == kc.delete,
        key_for_name("done"@, kc) == kc.done,
        key_for_name("down"@, kc) == kc.down,
        key_for_name("duplicate"@, kc) == kc.duplicate,
        key_for_name("edit"@, kc) == kc.edit,
        key_for_name("filter"@, kc) == kc.filter,
        key_for_name("go_to_bottom"@, kc) == kc.go_to_bottom,
        key_for_name("go_to_top"@, kc) == kc.go_to_top,
        key_for_name("help"@, kc) == kc.help,
        key_for_name("jump"@, kc) == kc.jump,
        key_for_name("log"@, kc) == kc.log,
        key_for_name("modify"@, kc) == kc.modify,
        key_for_name("next_tab"@, kc) == kc.next_tab,
        key_for_name("page_down"@, kc) == kc.page_down,
        key_for_name("page_up"@, kc) == kc.page_up,
        key_for_name("previous_tab"@, kc) == kc.previous_tab,
        key_for_name("priority_down"@, kc) == kc.priority_down,
        key_for_name("priority_h"@, kc) == kc.priority_h,
        key_for_name("priority_l"@, kc) == kc.priority_l,
        key_for_name("priority_m"@, kc) == kc.priority_m,
        key_for_name("priority_n"@, kc) == kc.priority_n,
        key_for_name("priority_up"@, kc) == kc.priority_up,
        key_for_name("quick_tag"@, kc) == kc.quick_tag,
        key_for_name("quit"@, kc) == kc.quit,
        key_for_name("refresh"@, kc) == kc.refresh,
        key_for_name("reset_filter"@, kc) == kc.reset_filter,
        key_for_name("scroll_down"@, kc) == kc.scroll_down,
        key_for_name("scroll_up"@, kc) == kc.scroll_up,
        key_for_name("select"@, kc) == kc.select,
        key_for_name("select_all"@, kc) == kc.select_all,
        key_for_name("shell"@, kc) == kc.shell,
        key_for_name("shortcut0"@, kc) == kc.shortcut0,
        key_for_name("shortcut1"@, kc) == kc.shortcut1,
        key_for_name("shortcut2"@, kc) == kc.shortcut2,
        key_for_name("shortcut3"@, kc) == kc.shortcut3,
        key_for_name("shortcut4"@, kc) == kc.shortcut4,
        key_for_name("shortcut5"@, kc) == kc.shortcut5,
        key_for_name("shortcut6"@, kc) == kc.shortcut6,
        key_for_name("shortcut7"@, kc) == kc.shortcut7,
        key_for_name("shortcut8"@, kc) == kc.shortcut8,
        key_for_name("shortcut9"@, kc) == kc.shortcut9,
        key_for_name("start_stop"@, kc) == kc.start_stop,
        key_for_name("undo"@, kc) == kc.undo,
        key_for_name("up"@, kc) == kc.up,
        key_for_name("zoom"@, kc) == kc.zoom,
{
    lemma_help_key_add(kc);
    lemma_help_key_annotate(kc);
    lemma_help_key_context_menu(kc);
    lemma_help_key_delete(kc);
    lemma_help_key_done(kc);
    lemma_help_key_down(kc);
    lemma_help_key_duplicate(kc);
    lemma_help_key_edit(kc);
    lemma_help_key_filter(kc);
    lemma_help_key_go_to_bottom(kc);
    lemma_help_key_go_to_top(kc);
    lemma_help_key_help(kc);
    lemma_help_key_jump(kc);
    lemma_help_key_log(kc);
    lemma_help_key_modify(kc);
    lemma_help_key_next_tab(kc);
    lemma_help_key_page_down(kc);
    lemma_help_key_page_up(kc);
    lemma_help_key_previous_tab(kc);
    lemma_help_key_priority_down(kc);
    lemma_help_key_priority_h(kc);
    lemma_help_key_priority_l(kc);
    lemma_help_key_priority_m(kc);
    lemma_help_key_priority_n(kc);
    lemma_help_key_priority_up(kc);
    lemma_help_key_quick_tag(kc);
    lemma_help_key_quit(kc);
    lemma_help_key_refresh(kc);
    lemma_help_key_reset_filter(kc);
    lemma_help_key_scroll_down(kc);
    lemma_help_key_scroll_up(kc);
    lemma_help_key_select(kc);
    lemma_help_key_select_all(kc);
    lemma_help_key_shell(kc);
    lemma_help_key_shortcut0(kc);
    lemma_help_key_shortcut1(kc);
    lemma_help_key_shortcut2(kc);
    lemma_help_key_shortcut3(kc);
    lemma_help_key_shortcut4(kc);
    lemma_help_key_shortcut5(kc);
    lemma_help_key_shortcut6(kc);
    lemma_help_key_shortcut7(kc);
    lemma_help_key_shortcut8(kc);
    lemma_help_key_shortcut9(kc);
    lemma_help_key_start_stop(kc);
    lemma_help_key_undo(kc);
    lemma_help_key_up(kc);
    lemma_help_key_zoom(kc);
}

} // verus!
