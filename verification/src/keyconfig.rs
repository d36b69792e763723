//! Key bindings of the task report, read from the `uda.taskwarrior-tui.keyconfig.*`
//! entries of `task show`.
use vstd::prelude::*;

use crate::event::KeyCode;
use crate::text::{
    ascii_lower, ascii_lower_char, ascii_upper, is_ascii_text, lemma_ascii_case, lemma_find_char_at, chars_eq_str, chars_of, ends_with, find_char, find_char_in, has_prefix, has_suffix, lowercase,
    parse_unsigned, parse_unsigned_chars, push_str, replace_char, replace_char_chars, slice_range,
    split_char, split_chars, starts_with, str_to_lowercase, string_of, strip_all_prefix,
    strip_all_prefix_chars, trim, trim_chars, trim_end, trim_end_chars, trim_start, trim_start_chars,
};

verus! {

/// The configured key of every action of the task report.
#[derive(Debug, Clone, Copy)]
pub struct KeyConfig {
    pub quit: KeyCode,
    pub refresh: KeyCode,
    pub go_to_bottom: KeyCode,
    pub go_to_top: KeyCode,
    pub down: KeyCode,
    pub up: KeyCode,
    pub page_down: KeyCode,
    pub page_up: KeyCode,
    pub delete: KeyCode,
    pub done: KeyCode,
    pub start_stop: KeyCode,
    pub quick_tag: KeyCode,
    pub select: KeyCode,
    pub select_all: KeyCode,
    pub undo: KeyCode,
    pub edit: KeyCode,
    pub duplicate: KeyCode,
    pub modify: KeyCode,
    pub shell: KeyCode,
    pub log: KeyCode,
    pub add: KeyCode,
    pub annotate: KeyCode,
    pub help: KeyCode,
    pub filter: KeyCode,
    pub zoom: KeyCode,
    pub context_menu: KeyCode,
    pub next_tab: KeyCode,
    pub previous_tab: KeyCode,
    pub scroll_down: KeyCode,
    pub scroll_up: KeyCode,
    pub jump: KeyCode,
    pub reset_filter: KeyCode,
    pub priority_h: KeyCode,
    pub priority_m: KeyCode,
    pub priority_l: KeyCode,
    pub priority_n: KeyCode,
    pub priority_up: KeyCode,
    pub priority_down: KeyCode,
    pub shortcut0: KeyCode,
    pub shortcut1: KeyCode,
    pub shortcut2: KeyCode,
    pub shortcut3: KeyCode,
    pub shortcut4: KeyCode,
    pub shortcut5: KeyCode,
    pub shortcut6: KeyCode,
    pub shortcut7: KeyCode,
    pub shortcut8: KeyCode,
    pub shortcut9: KeyCode,
}

/// Two actions are bound to the same key.
#[derive(Debug, PartialEq, Eq)]
pub struct KeyConfigError {
    /// The action that was bound to the key first.
    pub first: String,
    /// The action whose binding repeats it.
    pub second: String,
}

/// The number of bindings in a key configuration.
pub open spec fn binding_count() -> nat {
    48
}

/// The bindings in the order in which duplicates are looked for.
pub open spec fn bindings(kc: KeyConfig) -> Seq<KeyCode> {
    seq![kc.quit, kc.refresh, kc.go_to_bottom, kc.go_to_top, kc.down, kc.up, kc.page_down, kc.page_up, kc.delete, kc.done, kc.select, kc.select_all, kc.start_stop, kc.quick_tag, kc.undo, kc.edit, kc.duplicate, kc.modify, kc.shell, kc.log, kc.add, kc.annotate, kc.help, kc.filter, kc.zoom, kc.context_menu, kc.next_tab, kc.previous_tab, kc.scroll_down, kc.scroll_up, kc.jump, kc.reset_filter, kc.priority_h, kc.priority_m, kc.priority_l, kc.priority_n, kc.priority_up, kc.priority_down, kc.shortcut0, kc.shortcut1, kc.shortcut2, kc.shortcut3, kc.shortcut4, kc.shortcut5, kc.shortcut6, kc.shortcut7, kc.shortcut8, kc.shortcut9]
}

/// The name under which binding `i` is reported in a duplicate error.
#[verifier::opaque]
pub open spec fn binding_name(i: int) -> Seq<char> {
    if i == 0 {
        "quit"@
    } else if i == 1 {
        "refresh"@
    } else if i == 2 {
        "go_to_bottom"@
    } else if i == 3 {
        "go_to_top"@
    } else if i == 4 {
        "down"@
    } else if i == 5 {
        "up"@
    } else if i == 6 {
        "page_down"@
    } else if i == 7 {
        "page_up"@
    } else if i == 8 {
        "delete"@
    } else if i == 9 {
        "done"@
    } else if i == 10 {
        "select"@
    } else if i == 11 {
        "select_all"@
    } else if i == 12 {
        "start_stop"@
    } else if i == 13 {
        "quick_tag"@
    } else if i == 14 {
        "undo"@
    } else if i == 15 {
        "edit"@
    } else if i == 16 {
        "duplicate"@
    } else if i == 17 {
        "modify"@
    } else if i == 18 {
        "shell"@
    } else if i == 19 {
        "log"@
    } else if i == 20 {
        "add"@
    } else if i == 21 {
        "annotate"@
    } else if i == 22 {
        "help"@
    } else if i == 23 {
        "filter"@
    } else if i == 24 {
        "zoom"@
    } else if i == 25 {
        "context_menu"@
    } else if i == 26 {
        "next_tab"@
    } else if i == 27 {
        "previous_tab"@
    } else if i == 28 {
        "scroll_down"@
    } else if i == 29 {
        "scroll_up"@
    } else if i == 30 {
        "jump"@
    } else if i == 31 {
        "reset_filter"@
    } else if i == 32 {
        "priority-h"@
    } else if i == 33 {
        "priority-m"@
    } else if i == 34 {
        "priority-l"@
    } else if i == 35 {
        "priority-n"@
    } else if i == 36 {
        "priority-up"@
    } else if i == 37 {
        "priority-down"@
    } else if i == 38 {
        "shortcut0"@
    } else if i == 39 {
        "shortcut1"@
    } else if i == 40 {
        "shortcut2"@
    } else if i == 41 {
        "shortcut3"@
    } else if i == 42 {
        "shortcut4"@
    } else if i == 43 {
        "shortcut5"@
    } else if i == 44 {
        "shortcut6"@
    } else if i == 45 {
        "shortcut7"@
    } else if i == 46 {
        "shortcut8"@
    } else {
        "shortcut9"@
    }
}

/// The configuration key of binding `i`.
#[verifier::opaque]
pub open spec fn binding_key(i: int) -> Seq<char> {
    if i == 0 {
        "uda.taskwarrior-tui.keyconfig.quit"@
    } else if i == 1 {
        "uda.taskwarrior-tui.keyconfig.refresh"@
    } else if i == 2 {
        "uda.taskwarrior-tui.keyconfig.go-to-bottom"@
    } else if i == 3 {
        "uda.taskwarrior-tui.keyconfig.go-to-top"@
    } else if i == 4 {
        "uda.taskwarrior-tui.keyconfig.down"@
    } else if i == 5 {
        "uda.taskwarrior-tui.keyconfig.up"@
    } else if i == 6 {
        "uda.taskwarrior-tui.keyconfig.page-down"@
    } else if i == 7 {
        "uda.taskwarrior-tui.keyconfig.page-up"@
    } else if i == 8 {
        "uda.taskwarrior-tui.keyconfig.delete"@
    } else if i == 9 {
        "uda.taskwarrior-tui.keyconfig.done"@
    } else if i == 10 {
        "uda.taskwarrior-tui.keyconfig.select"@
    } else if i == 11 {
        "uda.taskwarrior-tui.keyconfig.select-all"@
    } else if i == 12 {
        "uda.taskwarrior-tui.keyconfig.start-stop"@
    } else if i == 13 {
        "uda.taskwarrior-tui.keyconfig.quick-tag"@
    } else if i == 14 {
        "uda.taskwarrior-tui.keyconfig.undo"@
    } else if i == 15 {
        "uda.taskwarrior-tui.keyconfig.edit"@
    } else if i == 16 {
        "uda.taskwarrior-tui.keyconfig.duplicate"@
    } else if i == 17 {
        "uda.taskwarrior-tui.keyconfig.modify"@
    } else if i == 18 {
        "uda.taskwarrior-tui.keyconfig.shell"@
    } else if i == 19 {
        "uda.taskwarrior-tui.keyconfig.log"@
    } else if i == 20 {
        "uda.taskwarrior-tui.keyconfig.add"@
    } else if i == 21 {
        "uda.taskwarrior-tui.keyconfig.annotate"@
    } else if i == 22 {
        "uda.taskwarrior-tui.keyconfig.help"@
    } else if i == 23 {
        "uda.taskwarrior-tui.keyconfig.filter"@
    } else if i == 24 {
        "uda.taskwarrior-tui.keyconfig.zoom"@
    } else if i == 25 {
        "uda.taskwarrior-tui.keyconfig.context-menu"@
    } else if i == 26 {
        "uda.taskwarrior-tui.keyconfig.next-tab"@
    } else if i == 27 {
        "uda.taskwarrior-tui.keyconfig.previous-tab"@
    } else if i == 28 {
        "uda.taskwarrior-tui.keyconfig.scroll-down"@
    } else if i == 29 {
        "uda.taskwarrior-tui.keyconfig.scroll-up"@
    } else if i == 30 {
        "uda.taskwarrior-tui.keyconfig.jump"@
    } else if i == 31 {
        "uda.taskwarrior-tui.keyconfig.reset-filter"@
    } else if i == 32 {
        "uda.taskwarrior-tui.keyconfig.priority-h"@
    } else if i == 33 {
        "uda.taskwarrior-tui.keyconfig.priority-m"@
    } else if i == 34 {
        "uda.taskwarrior-tui.keyconfig.priority-l"@
    } else if i == 35 {
        "uda.taskwarrior-tui.keyconfig.priority-n"@
    } else if i == 36 {
        "uda.taskwarrior-tui.keyconfig.priority-up"@
    } else if i == 37 {
        "uda.taskwarrior-tui.keyconfig.priority-down"@
    } else if i == 38 {
        "uda.taskwarrior-tui.keyconfig.shortcut0"@
    } else if i == 39 {
        "uda.taskwarrior-tui.keyconfig.shortcut1"@
    } else if i == 40 {
        "uda.taskwarrior-tui.keyconfig.shortcut2"@
    } else if i == 41 {
        "uda.taskwarrior-tui.keyconfig.shortcut3"@
    } else if i == 42 {
        "uda.taskwarrior-tui.keyconfig.shortcut4"@
    } else if i == 43 {
        "uda.taskwarrior-tui.keyconfig.shortcut5"@
    } else if i == 44 {
        "uda.taskwarrior-tui.keyconfig.shortcut6"@
    } else if i == 45 {
        "uda.taskwarrior-tui.keyconfig.shortcut7"@
    } else if i == 46 {
        "uda.taskwarrior-tui.keyconfig.shortcut8"@
    } else {
        "uda.taskwarrior-tui.keyconfig.shortcut9"@
    }
}

fn binding_name_str(i: usize) -> (r: &'static str)
    requires
        i < binding_count(),
    ensures
        r@ == binding_name(i as int),
{
    reveal(binding_name);
    if i == 0 {
        "quit"
    } else if i == 1 {
        "refresh"
    } else if i == 2 {
        "go_to_bottom"
    } else if i == 3 {
        "go_to_top"
    } else if i == 4 {
        "down"
    } else if i == 5 {
        "up"
    } else if i == 6 {
        "page_down"
    } else if i == 7 {
        "page_up"
    } else if i == 8 {
        "delete"
    } else if i == 9 {
        "done"
    } else if i == 10 {
        "select"
    } else if i == 11 {
        "select_all"
    } else if i == 12 {
        "start_stop"
    } else if i == 13 {
        "quick_tag"
    } else if i == 14 {
        "undo"
    } else if i == 15 {
        "edit"
    } else if i == 16 {
        "duplicate"
    } else if i == 17 {
        "modify"
    } else if i == 18 {
        "shell"
    } else if i == 19 {
        "log"
    } else if i == 20 {
        "add"
    } else if i == 21 {
        "annotate"
    } else if i == 22 {
        "help"
    } else if i == 23 {
        "filter"
    } else if i == 24 {
        "zoom"
    } else if i == 25 {
        "context_menu"
    } else if i == 26 {
        "next_tab"
    } else if i == 27 {
        "previous_tab"
    } else if i == 28 {
        "scroll_down"
    } else if i == 29 {
        "scroll_up"
    } else if i == 30 {
        "jump"
    } else if i == 31 {
        "reset_filter"
    } else if i == 32 {
        "priority-h"
    } else if i == 33 {
        "priority-m"
    } else if i == 34 {
        "priority-l"
    } else if i == 35 {
        "priority-n"
    } else if i == 36 {
        "priority-up"
    } else if i == 37 {
        "priority-down"
    } else if i == 38 {
        "shortcut0"
    } else if i == 39 {
        "shortcut1"
    } else if i == 40 {
        "shortcut2"
    } else if i == 41 {
        "shortcut3"
    } else if i == 42 {
        "shortcut4"
    } else if i == 43 {
        "shortcut5"
    } else if i == 44 {
        "shortcut6"
    } else if i == 45 {
        "shortcut7"
    } else if i == 46 {
        "shortcut8"
    } else {
        "shortcut9"
    }
}

fn binding_key_str(i: usize) -> (r: &'static str)
    requires
        i < binding_count(),
    ensures
        r@ == binding_key(i as int),
{
    reveal(binding_key);
    if i == 0 {
        "uda.taskwarrior-tui.keyconfig.quit"
    } else if i == 1 {
        "uda.taskwarrior-tui.keyconfig.refresh"
    } else if i == 2 {
        "uda.taskwarrior-tui.keyconfig.go-to-bottom"
    } else if i == 3 {
        "uda.taskwarrior-tui.keyconfig.go-to-top"
    } else if i == 4 {
        "uda.taskwarrior-tui.keyconfig.down"
    } else if i == 5 {
        "uda.taskwarrior-tui.keyconfig.up"
    } else if i == 6 {
        "uda.taskwarrior-tui.keyconfig.page-down"
    } else if i == 7 {
        "uda.taskwarrior-tui.keyconfig.page-up"
    } else if i == 8 {
        "uda.taskwarrior-tui.keyconfig.delete"
    } else if i == 9 {
        "uda.taskwarrior-tui.keyconfig.done"
    } else if i == 10 {
        "uda.taskwarrior-tui.keyconfig.select"
    } else if i == 11 {
        "uda.taskwarrior-tui.keyconfig.select-all"
    } else if i == 12 {
        "uda.taskwarrior-tui.keyconfig.start-stop"
    } else if i == 13 {
        "uda.taskwarrior-tui.keyconfig.quick-tag"
    } else if i == 14 {
        "uda.taskwarrior-tui.keyconfig.undo"
    } else if i == 15 {
        "uda.taskwarrior-tui.keyconfig.edit"
    } else if i == 16 {
        "uda.taskwarrior-tui.keyconfig.duplicate"
    } else if i == 17 {
        "uda.taskwarrior-tui.keyconfig.modify"
    } else if i == 18 {
        "uda.taskwarrior-tui.keyconfig.shell"
    } else if i == 19 {
        "uda.taskwarrior-tui.keyconfig.log"
    } else if i == 20 {
        "uda.taskwarrior-tui.keyconfig.add"
    } else if i == 21 {
        "uda.taskwarrior-tui.keyconfig.annotate"
    } else if i == 22 {
        "uda.taskwarrior-tui.keyconfig.help"
    } else if i == 23 {
        "uda.taskwarrior-tui.keyconfig.filter"
    } else if i == 24 {
        "uda.taskwarrior-tui.keyconfig.zoom"
    } else if i == 25 {
        "uda.taskwarrior-tui.keyconfig.context-menu"
    } else if i == 26 {
        "uda.taskwarrior-tui.keyconfig.next-tab"
    } else if i == 27 {
        "uda.taskwarrior-tui.keyconfig.previous-tab"
    } else if i == 28 {
        "uda.taskwarrior-tui.keyconfig.scroll-down"
    } else if i == 29 {
        "uda.taskwarrior-tui.keyconfig.scroll-up"
    } else if i == 30 {
        "uda.taskwarrior-tui.keyconfig.jump"
    } else if i == 31 {
        "uda.taskwarrior-tui.keyconfig.reset-filter"
    } else if i == 32 {
        "uda.taskwarrior-tui.keyconfig.priority-h"
    } else if i == 33 {
        "uda.taskwarrior-tui.keyconfig.priority-m"
    } else if i == 34 {
        "uda.taskwarrior-tui.keyconfig.priority-l"
    } else if i == 35 {
        "uda.taskwarrior-tui.keyconfig.priority-n"
    } else if i == 36 {
        "uda.taskwarrior-tui.keyconfig.priority-up"
    } else if i == 37 {
        "uda.taskwarrior-tui.keyconfig.priority-down"
    } else if i == 38 {
        "uda.taskwarrior-tui.keyconfig.shortcut0"
    } else if i == 39 {
        "uda.taskwarrior-tui.keyconfig.shortcut1"
    } else if i == 40 {
        "uda.taskwarrior-tui.keyconfig.shortcut2"
    } else if i == 41 {
        "uda.taskwarrior-tui.keyconfig.shortcut3"
    } else if i == 42 {
        "uda.taskwarrior-tui.keyconfig.shortcut4"
    } else if i == 43 {
        "uda.taskwarrior-tui.keyconfig.shortcut5"
    } else if i == 44 {
        "uda.taskwarrior-tui.keyconfig.shortcut6"
    } else if i == 45 {
        "uda.taskwarrior-tui.keyconfig.shortcut7"
    } else if i == 46 {
        "uda.taskwarrior-tui.keyconfig.shortcut8"
    } else {
        "uda.taskwarrior-tui.keyconfig.shortcut9"
    }
}

/// The bindings used where the configuration sets none.
pub open spec fn default_key_config() -> KeyConfig {
    KeyConfig {
        quit: KeyCode::Char('q'),
        refresh: KeyCode::Char('r'),
        go_to_bottom: KeyCode::Char('G'),
        go_to_top: KeyCode::Char('g'),
        down: KeyCode::Char('j'),
        up: KeyCode::Char('k'),
        page_down: KeyCode::Char('J'),
        page_up: KeyCode::Char('K'),
        delete: KeyCode::Char('x'),
        done: KeyCode::Char('d'),
        start_stop: KeyCode::Char('s'),
        quick_tag: KeyCode::Char('t'),
        select: KeyCode::Char('v'),
        select_all: KeyCode::Char('V'),
        undo: KeyCode::Char('u'),
        edit: KeyCode::Char('e'),
        duplicate: KeyCode::Char('y'),
        modify: KeyCode::Char('m'),
        shell: KeyCode::Char('!'),
        log: KeyCode::Char('l'),
        add: KeyCode::Char('a'),
        annotate: KeyCode::Char('A'),
        help: KeyCode::Char('?'),
        filter: KeyCode::Char('/'),
        zoom: KeyCode::Char('z'),
        context_menu: KeyCode::Char('c'),
        next_tab: KeyCode::Char(']'),
        previous_tab: KeyCode::Char('['),
        scroll_down: KeyCode::Ctrl('e'),
        scroll_up: KeyCode::Ctrl('y'),
        jump: KeyCode::Char(':'),
        reset_filter: KeyCode::Ctrl('r'),
        priority_h: KeyCode::Char('H'),
        priority_m: KeyCode::Char('M'),
        priority_l: KeyCode::Char('L'),
        priority_n: KeyCode::Char('N'),
        priority_up: KeyCode::Char('+'),
        priority_down: KeyCode::Char('-'),
        shortcut0: KeyCode::Char('0'),
        shortcut1: KeyCode::Char('1'),
        shortcut2: KeyCode::Char('2'),
        shortcut3: KeyCode::Char('3'),
        shortcut4: KeyCode::Char('4'),
        shortcut5: KeyCode::Char('5'),
        shortcut6: KeyCode::Char('6'),
        shortcut7: KeyCode::Char('7'),
        shortcut8: KeyCode::Char('8'),
        shortcut9: KeyCode::Char('9'),
    }
}

/// The key configuration after reading `data`: every binding that `data` sets
/// takes its value from there, every other one keeps its value in `old`.
pub open spec fn updated_key_config(old: KeyConfig, data: Seq<char>) -> KeyConfig {
    KeyConfig {
        quit: key_or(binding_key(0), data, old.quit),
        refresh: key_or(binding_key(1), data, old.refresh),
        go_to_bottom: key_or(binding_key(2), data, old.go_to_bottom),
        go_to_top: key_or(binding_key(3), data, old.go_to_top),
        down: key_or(binding_key(4), data, old.down),
        up: key_or(binding_key(5), data, old.up),
        page_down: key_or(binding_key(6), data, old.page_down),
        page_up: key_or(binding_key(7), data, old.page_up),
        delete: key_or(binding_key(8), data, old.delete),
        done: key_or(binding_key(9), data, old.done),
        start_stop: key_or(binding_key(12), data, old.start_stop),
        quick_tag: key_or(binding_key(13), data, old.quick_tag),
        select: key_or(binding_key(10), data, old.select),
        select_all: key_or(binding_key(11), data, old.select_all),
        undo: key_or(binding_key(14), data, old.undo),
        edit: key_or(binding_key(15), data, old.edit),
        duplicate: key_or(binding_key(16), data, old.duplicate),
        modify: key_or(binding_key(17), data, old.modify),
        shell: key_or(binding_key(18), data, old.shell),
        log: key_or(binding_key(19), data, old.log),
        add: key_or(binding_key(20), data, old.add),
        annotate: key_or(binding_key(21), data, old.annotate),
        help: key_or(binding_key(22), data, old.help),
        filter: key_or(binding_key(23), data, old.filter),
        zoom: key_or(binding_key(24), data, old.zoom),
        context_menu: key_or(binding_key(25), data, old.context_menu),
        next_tab: key_or(binding_key(26), data, old.next_tab),
        previous_tab: key_or(binding_key(27), data, old.previous_tab),
        scroll_down: key_or(binding_key(28), data, old.scroll_down),
        scroll_up: key_or(binding_key(29), data, old.scroll_up),
        jump: key_or(binding_key(30), data, old.jump),
        reset_filter: key_or(binding_key(31), data, old.reset_filter),
        priority_h: key_or(binding_key(32), data, old.priority_h),
        priority_m: key_or(binding_key(33), data, old.priority_m),
        priority_l: key_or(binding_key(34), data, old.priority_l),
        priority_n: key_or(binding_key(35), data, old.priority_n),
        priority_up: key_or(binding_key(36), data, old.priority_up),
        priority_down: key_or(binding_key(37), data, old.priority_down),
        shortcut0: key_or(binding_key(38), data, old.shortcut0),
        shortcut1: key_or(binding_key(39), data, old.shortcut1),
        shortcut2: key_or(binding_key(40), data, old.shortcut2),
        shortcut3: key_or(binding_key(41), data, old.shortcut3),
        shortcut4: key_or(binding_key(42), data, old.shortcut4),
        shortcut5: key_or(binding_key(43), data, old.shortcut5),
        shortcut6: key_or(binding_key(44), data, old.shortcut6),
        shortcut7: key_or(binding_key(45), data, old.shortcut7),
        shortcut8: key_or(binding_key(46), data, old.shortcut8),
        shortcut9: key_or(binding_key(47), data, old.shortcut9),
    }
}

/// The key that a configured value names: a single character, or a name in
/// angle brackets such as `<C-e>`; white space around the value is ignored.
pub open spec fn key_value(s: Seq<char>) -> Option<KeyCode> {
    let t = trim(s);
    if starts_with(t, seq!['<']) && ends_with(t, seq!['>']) {
        angle_key(lowercase(t.subrange(1, t.len() - 1)))
    } else if t.len() == 1 {
        Some(KeyCode::Char(t[0]))
    } else {
        None
    }
}

/// The key that a configured value names, with the text inside angle
/// brackets lowered letter by letter where it is ASCII.
pub open spec fn key_value_lowered(s: Seq<char>) -> Option<KeyCode> {
    let t = trim(s);
    if starts_with(t, seq!['<']) && ends_with(t, seq!['>']) {
        let inner = t.subrange(1, t.len() - 1);
        if is_ascii_text(inner) {
            angle_key(ascii_lower(inner))
        } else {
            angle_key(lowercase(inner))
        }
    } else if t.len() == 1 {
        Some(KeyCode::Char(t[0]))
    } else {
        None
    }
}

/// `s` in angle brackets.
pub open spec fn bracketed(s: Seq<char>) -> Seq<char> {
    seq!['<'] + s + seq!['>']
}

/// Key names in angle brackets read alike in upper and lower case: an ASCII
/// name, the same name lowered and the same name raised name one key.
pub proof fn law_key_names_ignore_case(s: Seq<char>)
    requires
        is_ascii_text(s),
    ensures
        key_value_lowered(bracketed(s)) == key_value_lowered(bracketed(ascii_lower(s))),
        key_value_lowered(bracketed(s)) == key_value_lowered(bracketed(ascii_upper(s))),
{
    lemma_ascii_case(s);
    lemma_bracketed_inner(s);
    lemma_bracketed_inner(ascii_lower(s));
    lemma_bracketed_inner(ascii_upper(s));
}

pub proof fn lemma_bracketed_inner(s: Seq<char>)
    ensures
        trim(bracketed(s)) == bracketed(s),
        starts_with(bracketed(s), seq!['<']),
        ends_with(bracketed(s), seq!['>']),
        bracketed(s).subrange(1, bracketed(s).len() - 1) == s,
{
    let b = bracketed(s);
    assert(b[0] == '<');
    assert(b.last() == '>');
    assert(trim_start(b) == b);
    assert(trim_end(b) == b);
    assert(b.subrange(0, 1) =~= seq!['<']);
    assert(b.subrange(b.len() - 1, b.len() as int) =~= seq!['>']);
    assert(b.subrange(1, b.len() - 1) =~= s);
}

/// `C-` and `A-` before an ASCII character name it held with Ctrl or Alt, in
/// lower case, and `M-` reads as `A-`.
pub proof fn law_modifier_prefixes(c: char, k: Seq<char>)
    requires
        (c as u32) < 128,
        is_ascii_text(k),
    ensures
        angle_key(ascii_lower(seq!['C', '-', c])) == Some(KeyCode::Ctrl(ascii_lower_char(c))),
        angle_key(ascii_lower(seq!['A', '-', c])) == Some(KeyCode::Alt(ascii_lower_char(c))),
        angle_key(ascii_lower(seq!['M', '-'] + k)) == angle_key(ascii_lower(seq!['A', '-'] + k)),
{
    assert(seq!['a'] != seq!['c']) by {
        assert(seq!['a'][0] != seq!['c'][0]);
    }
    assert(seq!['m'] != seq!['c']) by {
        assert(seq!['m'][0] != seq!['c'][0]);
    }
    let lc = ascii_lower(seq!['C', '-', c]);
    assert(lc =~= seq!['c', '-', ascii_lower_char(c)]);
    lemma_find_char_at(lc, '-', 1);
    assert(lc.subrange(0, 1) =~= seq!['c']);
    assert(lc.subrange(2, 3) =~= seq![ascii_lower_char(c)]);
    let la = ascii_lower(seq!['A', '-', c]);
    assert(la =~= seq!['a', '-', ascii_lower_char(c)]);
    lemma_find_char_at(la, '-', 1);
    assert(la.subrange(0, 1) =~= seq!['a']);
    assert(la.subrange(2, 3) =~= seq![ascii_lower_char(c)]);
    assert((ascii_lower_char(c) as u32) < 128);
    let lm = ascii_lower(seq!['M', '-'] + k);
    let ln = ascii_lower(seq!['A', '-'] + k);
    assert(lm =~= seq!['m', '-'] + ascii_lower(k));
    assert(ln =~= seq!['a', '-'] + ascii_lower(k));
    lemma_find_char_at(lm, '-', 1);
    lemma_find_char_at(ln, '-', 1);
    assert(lm.subrange(0, 1) =~= seq!['m']);
    assert(ln.subrange(0, 1) =~= seq!['a']);
    assert(lm.subrange(2, lm.len() as int) =~= ln.subrange(2, ln.len() as int));
}

/// The key that the lowercased text inside angle brackets names.
pub open spec fn angle_key(l: Seq<char>) -> Option<KeyCode> {
    match find_char(l, '-') {
        Some(pos) => modified_key(l.subrange(0, pos), l.subrange(pos + 1, l.len() as int), l),
        None => named_key(l),
    }
}

/// `k` is a single character that takes one byte in UTF-8.
pub open spec fn is_single_byte(k: Seq<char>) -> bool {
    k.len() == 1 && (k[0] as u32) < 128
}

/// The key named by a modifier `m` and a key `key`, `l` being the whole text.
pub open spec fn modified_key(m: Seq<char>, key: Seq<char>, l: Seq<char>) -> Option<KeyCode> {
    if m == seq!['c'] {
        if is_single_byte(key) {
            Some(KeyCode::Ctrl(key[0]))
        } else if key == "backspace"@ || key == "bs"@ {
            Some(KeyCode::CtrlBackspace)
        } else if key == "delete"@ || key == "del"@ {
            Some(KeyCode::CtrlDelete)
        } else {
            None
        }
    } else if m == seq!['a'] || m == seq!['m'] {
        if is_single_byte(key) {
            Some(KeyCode::Alt(key[0]))
        } else if key == "backspace"@ || key == "bs"@ {
            Some(KeyCode::AltBackspace)
        } else if key == "delete"@ || key == "del"@ {
            Some(KeyCode::AltDelete)
        } else {
            None
        }
    } else if m == seq!['s'] {
        if key == "tab"@ {
            Some(KeyCode::BackTab)
        } else {
            None
        }
    } else {
        named_key(l)
    }
}

/// The key that a lowercased name without modifier stands for.
pub open spec fn named_key(l: Seq<char>) -> Option<KeyCode> {
    if l == "esc"@ || l == "escape"@ {
        Some(KeyCode::Esc)
    } else if l == "enter"@ || l == "cr"@ || l == "return"@ {
        Some(KeyCode::Char('\n'))
    } else if l == "tab"@ {
        Some(KeyCode::Tab)
    } else if l == "backtab"@ {
        Some(KeyCode::BackTab)
    } else if l == "bs"@ || l == "backspace"@ {
        Some(KeyCode::Backspace)
    } else if l == "del"@ || l == "delete"@ {
        Some(KeyCode::Delete)
    } else if l == "ins"@ || l == "insert"@ {
        Some(KeyCode::Insert)
    } else if l == "space"@ {
        Some(KeyCode::Char(' '))
    } else if l == "up"@ {
        Some(KeyCode::Up)
    } else if l == "down"@ {
        Some(KeyCode::Down)
    } else if l == "left"@ {
        Some(KeyCode::Left)
    } else if l == "right"@ {
        Some(KeyCode::Right)
    } else if l == "pageup"@ || l == "pgup"@ {
        Some(KeyCode::PageUp)
    } else if l == "pagedown"@ || l == "pgdn"@ {
        Some(KeyCode::PageDown)
    } else if l == "home"@ {
        Some(KeyCode::Home)
    } else if l == "end"@ {
        Some(KeyCode::End)
    } else if l == "null"@ {
        Some(KeyCode::Null)
    } else if l == "nop"@ {
        Some(KeyCode::Nop)
    } else {
        function_key(l)
    }
}

/// `f` followed by a number from 1 to 12 names a function key.
pub open spec fn function_key(l: Seq<char>) -> Option<KeyCode> {
    if l.len() > 0 && l[0] == 'f' {
        match parse_unsigned(l.drop_first(), 255) {
            Some(n) => if 1 <= n <= 12 {
                Some(KeyCode::F(n as u8))
            } else {
                None
            },
            None => None,
        }
    } else {
        None
    }
}

/// The value that a line gives to the configuration key `config`, if the
/// line is about it (with `-` or with `_` in the key).
pub open spec fn line_value(line: Seq<char>, config: Seq<char>) -> Option<Seq<char>> {
    let alt = replace_char(config, '-', '_');
    if starts_with(line, config) {
        Some(trim_end(trim_start(strip_all_prefix(line, config))))
    } else if starts_with(line, alt) {
        Some(trim_end(trim_start(strip_all_prefix(line, alt))))
    } else {
        None
    }
}

/// The key set for `config` by the first of `lines` that is about it and
/// holds a valid key.
pub open spec fn lookup_key(lines: Seq<Seq<char>>, config: Seq<char>) -> Option<KeyCode>
    decreases lines.len(),
{
    if lines.len() == 0 {
        None
    } else {
        match line_value(lines[0], config) {
            Some(v) => match key_value(v) {
                Some(k) => Some(k),
                None => lookup_key(lines.drop_first(), config),
            },
            None => lookup_key(lines.drop_first(), config),
        }
    }
}

/// The key that the `task show` output `data` sets for `config`.
#[verifier::opaque]
pub open spec fn configured_key(config: Seq<char>, data: Seq<char>) -> Option<KeyCode> {
    lookup_key(split_char(data, '\n'), config)
}

/// The key set for `config` in `data`, or else `old`.
#[verifier::opaque]
pub open spec fn key_or(config: Seq<char>, data: Seq<char>, old: KeyCode) -> KeyCode {
    match configured_key(config, data) {
        Some(k) => k,
        None => old,
    }
}

/// Bindings `i < j` share a key, and it is not the disabled `Nop`.
pub open spec fn is_duplicate(b: Seq<KeyCode>, i: int, j: int) -> bool {
    0 <= i < j < b.len() && b[i] == b[j] && b[j] != KeyCode::Nop
}

/// No two bindings share a key other than `Nop`.
pub open spec fn no_duplicates(kc: KeyConfig) -> bool {
    forall|i: int, j: int| !is_duplicate(bindings(kc), i, j)
}

/// `(i, j)` is the duplicate that is reported: `j` is the first binding that
/// repeats an earlier one, and `i` that earlier one.
pub open spec fn is_first_duplicate(kc: KeyConfig, i: int, j: int) -> bool {
    &&& is_duplicate(bindings(kc), i, j)
    &&& forall|i2: int, j2: int| j2 < j ==> !is_duplicate(bindings(kc), i2, j2)
}

/// What `check` reports for `kc`.
pub open spec fn check_result(kc: KeyConfig, r: Result<(), KeyConfigError>) -> bool {
    match r {
        Ok(_) => no_duplicates(kc),
        Err(e) => exists|i: int, j: int|
            is_first_duplicate(kc, i, j) && e.first@ == binding_name(i) && e.second@
                == binding_name(j),
    }
}

/// The message of a duplicate-binding error.
pub open spec fn duplicate_message(first: Seq<char>, second: Seq<char>) -> Seq<char> {
    "Duplicate key binding: '"@ + first + "' and '"@ + second + "' are both mapped to the same key"@
}

impl KeyConfigError {
    /// The error message, naming both actions.
    pub fn to_string(&self) -> (r: String)
        ensures
            r@ == duplicate_message(self.first@, self.second@),
    {
        let mut v: Vec<char> = Vec::new();
        push_str(&mut v, "Duplicate key binding: '");
        push_str(&mut v, self.first.as_str());
        push_str(&mut v, "' and '");
        push_str(&mut v, self.second.as_str());
        push_str(&mut v, "' are both mapped to the same key");
        assert(v@ =~= duplicate_message(self.first@, self.second@));
        string_of(v.as_slice())
    }
}

/// `s` holds exactly one character.
pub fn has_just_one_char(s: &str) -> (r: bool)
    ensures
        r == (s@.len() == 1),
{
    let v = chars_of(s);
    v.len() == 1
}

fn is_single_byte_chars(k: &[char]) -> (r: bool)
    ensures
        r == is_single_byte(k@),
{
    k.len() == 1 && (k[0] as u32) < 128
}

fn function_key_chars(l: &[char]) -> (r: Option<KeyCode>)
    ensures
        r == function_key(l@),
{
    if l.len() > 0 && l[0] == 'f' {
        let rest = slice_range(l, 1, l.len());
        assert(rest@ =~= l@.drop_first());
        match parse_unsigned_chars(rest.as_slice(), 255) {
            Some(n) => if 1 <= n && n <= 12 {
                Some(KeyCode::F(n as u8))
            } else {
                None
            },
            None => None,
        }
    } else {
        None
    }
}

fn named_key_chars(l: &[char]) -> (r: Option<KeyCode>)
    ensures
        r == named_key(l@),
{
    if chars_eq_str(l, "esc") || chars_eq_str(l, "escape") {
        Some(KeyCode::Esc)
    } else if chars_eq_str(l, "enter") || chars_eq_str(l, "cr") || chars_eq_str(l, "return") {
        Some(KeyCode::Char('\n'))
    } else if chars_eq_str(l, "tab") {
        Some(KeyCode::Tab)
    } else if chars_eq_str(l, "backtab") {
        Some(KeyCode::BackTab)
    } else if chars_eq_str(l, "bs") || chars_eq_str(l, "backspace") {
        Some(KeyCode::Backspace)
    } else if chars_eq_str(l, "del") || chars_eq_str(l, "delete") {
        Some(KeyCode::Delete)
    } else if chars_eq_str(l, "ins") || chars_eq_str(l, "insert") {
        Some(KeyCode::Insert)
    } else if chars_eq_str(l, "space") {
        Some(KeyCode::Char(' '))
    } else if chars_eq_str(l, "up") {
        Some(KeyCode::Up)
    } else if chars_eq_str(l, "down") {
        Some(KeyCode::Down)
    } else if chars_eq_str(l, "left") {
        Some(KeyCode::Left)
    } else if chars_eq_str(l, "right") {
        Some(KeyCode::Right)
    } else if chars_eq_str(l, "pageup") || chars_eq_str(l, "pgup") {
        Some(KeyCode::PageUp)
    } else if chars_eq_str(l, "pagedown") || chars_eq_str(l, "pgdn") {
        Some(KeyCode::PageDown)
    } else if chars_eq_str(l, "home") {
        Some(KeyCode::Home)
    } else if chars_eq_str(l, "end") {
        Some(KeyCode::End)
    } else if chars_eq_str(l, "null") {
        Some(KeyCode::Null)
    } else if chars_eq_str(l, "nop") {
        Some(KeyCode::Nop)
    } else {
        function_key_chars(l)
    }
}

fn modified_key_chars(m: &[char], key: &[char], l: &[char]) -> (r: Option<KeyCode>)
    ensures
        r == modified_key(m@, key@, l@),
{
    let is_c = m.len() == 1 && m[0] == 'c';
    let is_a = m.len() == 1 && (m[0] == 'a' || m[0] == 'm');
    let is_s = m.len() == 1 && m[0] == 's';
    proof {
        if m@.len() == 1 {
            if m@[0] == 'c' {
                assert(m@ =~= seq!['c']);
            } else {
                assert(seq!['c'][0] == 'c');
            }
            if m@[0] == 'a' {
                assert(m@ =~= seq!['a']);
            } else {
                assert(seq!['a'][0] == 'a');
            }
            if m@[0] == 'm' {
                assert(m@ =~= seq!['m']);
            } else {
                assert(seq!['m'][0] == 'm');
            }
            if m@[0] == 's' {
                assert(m@ =~= seq!['s']);
            } else {
                assert(seq!['s'][0] == 's');
            }
        } else {
            assert(seq!['c'].len() == 1);
        }
    }
    if is_c {
        if is_single_byte_chars(key) {
            Some(KeyCode::Ctrl(key[0]))
        } else if chars_eq_str(key, "backspace") || chars_eq_str(key, "bs") {
            Some(KeyCode::CtrlBackspace)
        } else if chars_eq_str(key, "delete") || chars_eq_str(key, "del") {
            Some(KeyCode::CtrlDelete)
        } else {
            None
        }
    } else if is_a {
        if is_single_byte_chars(key) {
            Some(KeyCode::Alt(key[0]))
        } else if chars_eq_str(key, "backspace") || chars_eq_str(key, "bs") {
            Some(KeyCode::AltBackspace)
        } else if chars_eq_str(key, "delete") || chars_eq_str(key, "del") {
            Some(KeyCode::AltDelete)
        } else {
            None
        }
    } else if is_s {
        if chars_eq_str(key, "tab") {
            Some(KeyCode::BackTab)
        } else {
            None
        }
    } else {
        named_key_chars(l)
    }
}

fn angle_key_chars(l: &[char]) -> (r: Option<KeyCode>)
    ensures
        r == angle_key(l@),
{
    let n = l.len();
    match find_char_in(l, '-') {
        Some(pos) => {
            let m = slice_range(l, 0, pos);
            let key = slice_range(l, pos + 1, n);
            modified_key_chars(m.as_slice(), key.as_slice(), l)
        },
        None => named_key_chars(l),
    }
}

/// The key that the text inside angle brackets names: a modifier and a key
/// such as `C-e`, `A-d`, `M-f` or `S-Tab`, or a key name such as `Esc` or `F1`.
/// Case does not matter.
pub fn parse_angle_bracket(inner: &str) -> (r: Option<KeyCode>)
    ensures
        r == angle_key(lowercase(inner@)),
        is_ascii_text(inner@) ==> r == angle_key(ascii_lower(inner@)),
{
    let l = str_to_lowercase(inner);
    let lv = chars_of(l.as_str());
    angle_key_chars(lv.as_slice())
}

fn key_value_chars(s: &[char]) -> (r: Option<KeyCode>)
    ensures
        r == key_value(s@),
        r == key_value_lowered(s@),
{
    let t = trim_chars(s);
    let open = vec!['<'];
    let close = vec!['>'];
    assert(open@ == seq!['<']);
    assert(close@ == seq!['>']);
    if has_prefix(t.as_slice(), open.as_slice()) && has_suffix(t.as_slice(), close.as_slice()) {
        proof {
            if t@.len() == 1 {
                assert(t@.subrange(0, 1)[0] == '<');
                assert(t@.subrange(0, 1)[0] == '>');
            }
        }
        let inner = slice_range(t.as_slice(), 1, t.len() - 1);
        let is = string_of(inner.as_slice());
        parse_angle_bracket(is.as_str())
    } else if t.len() == 1 {
        Some(KeyCode::Char(t[0]))
    } else {
        None
    }
}

/// The key that a configured value names: a single character such as `q`, or
/// a name in angle brackets such as `<C-e>`. White space around it is ignored;
/// an empty value or several bare characters name no key.
pub fn parse_key_value(s: &str) -> (r: Option<KeyCode>)
    ensures
        r == key_value(s@),
        r == key_value_lowered(s@),
{
    let v = chars_of(s);
    key_value_chars(v.as_slice())
}

fn line_value_chars(line: &[char], config: &[char]) -> (r: Option<Vec<char>>)
    ensures
        match line_value(line@, config@) {
            Some(v) => r matches Some(x) && x@ == v,
            None => r is None,
        },
{
    let alt = replace_char_chars(config, '-', '_');
    if has_prefix(line, config) {
        let a = strip_all_prefix_chars(line, config);
        let b = trim_start_chars(a.as_slice());
        Some(trim_end_chars(b.as_slice()))
    } else if has_prefix(line, alt.as_slice()) {
        let a = strip_all_prefix_chars(line, alt.as_slice());
        let b = trim_start_chars(a.as_slice());
        Some(trim_end_chars(b.as_slice()))
    } else {
        None
    }
}

impl KeyConfig {
    /// A configuration with the default bindings.
    pub fn default() -> (r: Self)
        ensures
            r == default_key_config(),
    {
            KeyConfig {
                quit: KeyCode::Char('q'),
                refresh: KeyCode::Char('r'),
                go_to_bottom: KeyCode::Char('G'),
                go_to_top: KeyCode::Char('g'),
                down: KeyCode::Char('j'),
                up: KeyCode::Char('k'),
                page_down: KeyCode::Char('J'),
                page_up: KeyCode::Char('K'),
                delete: KeyCode::Char('x'),
                done: KeyCode::Char('d'),
                start_stop: KeyCode::Char('s'),
                quick_tag: KeyCode::Char('t'),
                select: KeyCode::Char('v'),
                select_all: KeyCode::Char('V'),
                undo: KeyCode::Char('u'),
                edit: KeyCode::Char('e'),
                duplicate: KeyCode::Char('y'),
                modify: KeyCode::Char('m'),
                shell: KeyCode::Char('!'),
                log: KeyCode::Char('l'),
                add: KeyCode::Char('a'),
                annotate: KeyCode::Char('A'),
                help: KeyCode::Char('?'),
                filter: KeyCode::Char('/'),
                zoom: KeyCode::Char('z'),
                context_menu: KeyCode::Char('c'),
                next_tab: KeyCode::Char(']'),
                previous_tab: KeyCode::Char('['),
                scroll_down: KeyCode::Ctrl('e'),
                scroll_up: KeyCode::Ctrl('y'),
                jump: KeyCode::Char(':'),
                reset_filter: KeyCode::Ctrl('r'),
                priority_h: KeyCode::Char('H'),
                priority_m: KeyCode::Char('M'),
                priority_l: KeyCode::Char('L'),
                priority_n: KeyCode::Char('N'),
                priority_up: KeyCode::Char('+'),
                priority_down: KeyCode::Char('-'),
                shortcut0: KeyCode::Char('0'),
                shortcut1: KeyCode::Char('1'),
                shortcut2: KeyCode::Char('2'),
                shortcut3: KeyCode::Char('3'),
                shortcut4: KeyCode::Char('4'),
                shortcut5: KeyCode::Char('5'),
                shortcut6: KeyCode::Char('6'),
                shortcut7: KeyCode::Char('7'),
                shortcut8: KeyCode::Char('8'),
                shortcut9: KeyCode::Char('9'),
            }
    }

    /// The default bindings, updated by the `uda.taskwarrior-tui.keyconfig.*`
    /// entries of the `task show` output `data`. Fails when two actions end up
    /// on the same key.
    pub fn new(data: &str) -> (r: Result<Self, KeyConfigError>)
        ensures
            match r {
                Ok(kc) => kc == updated_key_config(default_key_config(), data@) && no_duplicates(kc),
                Err(e) => check_result(updated_key_config(default_key_config(), data@), Err(e)),
            },
    {
        let mut kc = Self::default();
        match kc.update(data) {
            Ok(()) => Ok(kc),
            Err(e) => Err(e),
        }
    }

    fn binding_or(i: usize, data: &str, old: KeyCode) -> (r: KeyCode)
        requires
            i < binding_count(),
        ensures
            r == key_or(binding_key(i as int), data@, old),
    {
        reveal(key_or);
        match Self::get_config(binding_key_str(i), data) {
            Some(k) => k,
            None => old,
        }
    }

    /// Set every binding that `data` configures, keep the others, then check
    /// that no two actions share a key.
    #[verifier::spinoff_prover]
    #[verifier::rlimit(50)]
    pub fn update(&mut self, data: &str) -> (r: Result<(), KeyConfigError>)
        ensures
            *final(self) == updated_key_config(*old(self), data@),
            check_result(*final(self), r),
    {
        self.quit = Self::binding_or(0, data, self.quit);
        self.refresh = Self::binding_or(1, data, self.refresh);
        self.go_to_bottom = Self::binding_or(2, data, self.go_to_bottom);
        self.go_to_top = Self::binding_or(3, data, self.go_to_top);
        self.down = Self::binding_or(4, data, self.down);
        self.up = Self::binding_or(5, data, self.up);
        self.page_down = Self::binding_or(6, data, self.page_down);
        self.page_up = Self::binding_or(7, data, self.page_up);
        self.delete = Self::binding_or(8, data, self.delete);
        self.done = Self::binding_or(9, data, self.done);
        self.start_stop = Self::binding_or(12, data, self.start_stop);
        self.quick_tag = Self::binding_or(13, data, self.quick_tag);
        self.select = Self::binding_or(10, data, self.select);
        self.select_all = Self::binding_or(11, data, self.select_all);
        self.undo = Self::binding_or(14, data, self.undo);
        self.edit = Self::binding_or(15, data, self.edit);
        self.duplicate = Self::binding_or(16, data, self.duplicate);
        self.modify = Self::binding_or(17, data, self.modify);
        self.shell = Self::binding_or(18, data, self.shell);
        self.log = Self::binding_or(19, data, self.log);
        self.add = Self::binding_or(20, data, self.add);
        self.annotate = Self::binding_or(21, data, self.annotate);
        self.help = Self::binding_or(22, data, self.help);
        self.filter = Self::binding_or(23, data, self.filter);
        self.zoom = Self::binding_or(24, data, self.zoom);
        self.context_menu = Self::binding_or(25, data, self.context_menu);
        self.next_tab = Self::binding_or(26, data, self.next_tab);
        self.previous_tab = Self::binding_or(27, data, self.previous_tab);
        self.scroll_down = Self::binding_or(28, data, self.scroll_down);
        self.scroll_up = Self::binding_or(29, data, self.scroll_up);
        self.jump = Self::binding_or(30, data, self.jump);
        self.reset_filter = Self::binding_or(31, data, self.reset_filter);
        self.priority_h = Self::binding_or(32, data, self.priority_h);
        self.priority_m = Self::binding_or(33, data, self.priority_m);
        self.priority_l = Self::binding_or(34, data, self.priority_l);
        self.priority_n = Self::binding_or(35, data, self.priority_n);
        self.priority_up = Self::binding_or(36, data, self.priority_up);
        self.priority_down = Self::binding_or(37, data, self.priority_down);
        self.shortcut0 = Self::binding_or(38, data, self.shortcut0);
        self.shortcut1 = Self::binding_or(39, data, self.shortcut1);
        self.shortcut2 = Self::binding_or(40, data, self.shortcut2);
        self.shortcut3 = Self::binding_or(41, data, self.shortcut3);
        self.shortcut4 = Self::binding_or(42, data, self.shortcut4);
        self.shortcut5 = Self::binding_or(43, data, self.shortcut5);
        self.shortcut6 = Self::binding_or(44, data, self.shortcut6);
        self.shortcut7 = Self::binding_or(45, data, self.shortcut7);
        self.shortcut8 = Self::binding_or(46, data, self.shortcut8);
        self.shortcut9 = Self::binding_or(47, data, self.shortcut9);
        self.check()
    }

    /// Whether two actions share a key. Bindings set to `Nop` never conflict.
    pub fn check(&self) -> (r: Result<(), KeyConfigError>)
        ensures
            check_result(*self, r),
    {
        let b: Vec<KeyCode> = vec![self.quit, self.refresh, self.go_to_bottom, self.go_to_top, self.down, self.up, self.page_down, self.page_up, self.delete, self.done, self.select, self.select_all, self.start_stop, self.quick_tag, self.undo, self.edit, self.duplicate, self.modify, self.shell, self.log, self.add, self.annotate, self.help, self.filter, self.zoom, self.context_menu, self.next_tab, self.previous_tab, self.scroll_down, self.scroll_up, self.jump, self.reset_filter, self.priority_h, self.priority_m, self.priority_l, self.priority_n, self.priority_up, self.priority_down, self.shortcut0, self.shortcut1, self.shortcut2, self.shortcut3, self.shortcut4, self.shortcut5, self.shortcut6, self.shortcut7, self.shortcut8, self.shortcut9];
        assert(b@ == bindings(*self));
        let mut j: usize = 0;
        while j < b.len()
            invariant
                b@ == bindings(*self),
                j <= b@.len(),
                forall|i2: int, j2: int| j2 < j ==> !is_duplicate(b@, i2, j2),
            decreases b.len() - j,
        {
            if b[j] != KeyCode::Nop {
                let mut i: usize = 0;
                while i < j
                    invariant
                        b@ == bindings(*self),
                        i <= j < b@.len(),
                        b@[j as int] != KeyCode::Nop,
                        forall|i2: int| 0 <= i2 < i ==> b@[i2] != b@[j as int],
                        forall|i2: int, j2: int| j2 < j ==> !is_duplicate(b@, i2, j2),
                    decreases j - i,
                {
                    if b[i] == b[j] {
                        let e = KeyConfigError {
                            first: String::from_str(binding_name_str(i)),
                            second: String::from_str(binding_name_str(j)),
                        };
                        assert(is_first_duplicate(*self, i as int, j as int));
                        return Err(e);
                    }
                    i += 1;
                }
            }
            j += 1;
        }
        Ok(())
    }

    /// The key that the `task show` output `data` sets for the configuration
    /// key `config`: the first line about `config` (or about it with `_` for
    /// `-`) that holds a valid key wins.
    pub fn get_config(config: &str, data: &str) -> (r: Option<KeyCode>)
        ensures
            r == configured_key(config@, data@),
    {
        reveal(configured_key);
        let cv = chars_of(config);
        let dv = chars_of(data);
        let lines = split_chars(dv.as_slice(), '\n');
        let ghost ls = split_char(dv@, '\n');
        let mut i: usize = 0;
        assert(ls.subrange(0, ls.len() as int) =~= ls);
        while i < lines.len()
            invariant
                i <= lines@.len(),
                lines@.len() == ls.len(),
                ls == split_char(data@, '\n'),
                cv@ == config@,
                forall|k: int| 0 <= k < lines@.len() ==> #[trigger] lines@[k]@ == ls[k],
                configured_key(config@, data@) == lookup_key(ls.subrange(i as int, ls.len() as int), config@),
            decreases lines.len() - i,
        {
            let ghost rest = ls.subrange(i as int, ls.len() as int);
            assert(rest[0] == ls[i as int]);
            assert(rest.drop_first() =~= ls.subrange(i + 1, ls.len() as int));
            match line_value_chars(lines[i].as_slice(), cv.as_slice()) {
                Some(v) => {
                    match key_value_chars(v.as_slice()) {
                        Some(k) => {
                            return Some(k);
                        },
                        None => {},
                    }
                },
                None => {},
            }
            i += 1;
        }
        None
    }
}

} // verus!
