//! The `task` command lines that the interface runs for its keys, and what
//! it reads back from their output.
use vstd::prelude::*;

use crate::pane::context::strings_view;
use crate::text::{
    chars_of, has_prefix, parse_unsigned, parse_unsigned_chars, push_all, push_str, replace_all, replace_all_chars, split_char,
    split_chars, starts_with, string_of, trim, trim_chars,
};

verus! {

/// The words that `shlex::split` makes of `s`, or nothing where the quoting
/// is unbalanced.
pub uninterp spec fn shell_words(s: Seq<char>) -> Option<Seq<Seq<char>>>;

/// `shlex::split`: `s` split into words as a POSIX shell splits them. The
/// contract names the result.
#[verifier::external_body]
fn shlex_split(s: &str) -> (r: Option<Vec<String>>)
    ensures
        match shell_words(s@) {
            Some(ws) => r matches Some(v) && strings_view(v@) == ws,
            None => r is None,
        },
{
    shlex::split(s)
}

/// The hexadecimal digit of `n` (below 16), in lower case.
pub open spec fn hex_char(n: int) -> char {
    if n < 10 {
        ((48 + n) as u32) as char
    } else {
        ((87 + n) as u32) as char
    }
}

/// Digit `k` (0 to 31, most significant first) of the 128 bits of `u`.
pub open spec fn nibble(u: u128, k: int) -> int {
    ((u as nat) / vstd::arithmetic::power2::pow2((4 * (31 - k)) as nat)) as int % 16
}

/// A UUID written as `uuid` writes it: 32 lower-case hexadecimal digits, a
/// hyphen after the 8th, 12th, 16th and 20th.
pub open spec fn hyphenated(u: u128) -> Seq<char> {
    Seq::new(
        36,
        |i: int|
            if i == 8 || i == 13 || i == 18 || i == 23 {
                '-'
            } else {
                hex_char(
                    nibble(
                        u,
                        i - if i < 8 {
                            0int
                        } else if i < 13 {
                            1int
                        } else if i < 18 {
                            2int
                        } else if i < 23 {
                            3int
                        } else {
                            4int
                        },
                    ),
                )
            },
    )
}

/// `uuid::Uuid::from_u128(u).to_string()`: the UUID with these 128 bits,
/// hyphenated in lower case, as the `uuid` documentation says.
#[verifier::external_body]
fn uuid_text(u: u128) -> (r: String)
    ensures
        r@ == hyphenated(u),
{
    uuid::Uuid::from_u128(u).to_string()
}

/// The 128 bits of the UUID that `s` spells, as `uuid::Uuid::parse_str`
/// reads it.
pub uninterp spec fn uuid_parsed(s: Seq<char>) -> Option<u128>;

/// `uuid::Uuid::parse_str`, and the 128 bits of the UUID. The contract names
/// the result.
#[verifier::external_body]
fn parse_uuid(s: &str) -> (r: Option<u128>)
    ensures
        r == uuid_parsed(s@),
{
    match uuid::Uuid::parse_str(s) {
        Ok(u) => Some(u.as_u128()),
        Err(_) => None,
    }
}

/// The text of capture group `group` of the first match of the regular
/// expression `pattern` in `data`: `None` where the pattern does not
/// compile, `Some(None)` where nothing matches.
pub uninterp spec fn regex_capture(pattern: Seq<char>, data: Seq<char>, group: Seq<char>) -> Option<Option<Seq<char>>>;

/// `regex::Regex::new(pattern)` and its `captures(data)`, group `group`.
/// The contract names the result.
#[verifier::external_body]
fn capture(pattern: &str, data: &str, group: &str) -> (r: Option<Option<String>>)
    ensures
        match regex_capture(pattern@, data@, group@) {
            Some(Some(t)) => r matches Some(Some(x)) && x@ == t,
            Some(None) => r == Some(None::<String>),
            None => r is None,
        },
{
    match regex::Regex::new(pattern) {
        Ok(re) => Some(re.captures(data).and_then(|c| c.name(group).map(|m| m.as_str().to_string()))),
        Err(_) => None,
    }
}

/// The settings that every bulk command is run with.
pub open spec fn bulk_settings() -> Seq<Seq<char>> {
    seq!["rc.bulk=0"@, "rc.confirmation=off"@, "rc.dependency.confirmation=off"@, "rc.recurrence.confirmation=off"@]
}

/// The UUIDs as `task` reads them.
pub open spec fn uuid_words(uuids: Seq<u128>) -> Seq<Seq<char>> {
    uuids.map_values(|u: u128| hyphenated(u))
}

/// The arguments of `task` that apply `verb` to the tasks: the bulk
/// settings, the UUIDs, the verb, then the words given.
pub open spec fn bulk_args(uuids: Seq<u128>, verb: Seq<char>, words: Seq<Seq<char>>) -> Seq<Seq<char>> {
    bulk_settings() + uuid_words(uuids) + seq![verb] + words
}

fn push_bulk_prefix(out: &mut Vec<String>, uuids: &Vec<u128>)
    ensures
        strings_view(final(out)@) == strings_view(old(out)@) + bulk_settings() + uuid_words(uuids@),
{
    let ghost start = strings_view(out@);
    out.push(string_of(chars_of("rc.bulk=0").as_slice()));
    out.push(string_of(chars_of("rc.confirmation=off").as_slice()));
    out.push(string_of(chars_of("rc.dependency.confirmation=off").as_slice()));
    out.push(string_of(chars_of("rc.recurrence.confirmation=off").as_slice()));
    assert(strings_view(out@) =~= start + bulk_settings());
    let mut i: usize = 0;
    while i < uuids.len()
        invariant
            i <= uuids@.len(),
            strings_view(out@) == start + bulk_settings() + uuid_words(uuids@.take(i as int)),
        decreases uuids.len() - i,
    {
        let ghost before = strings_view(out@);
        out.push(uuid_text(uuids[i]));
        assert(uuid_words(uuids@.take(i + 1)) =~= uuid_words(uuids@.take(i as int)).push(hyphenated(uuids@[i as int])));
        assert(strings_view(out@) =~= before.push(hyphenated(uuids@[i as int])));
        i += 1;
    }
    assert(uuids@.take(uuids@.len() as int) =~= uuids@);
}

fn push_all_strings(out: &mut Vec<String>, words: Vec<String>)
    ensures
        strings_view(final(out)@) == strings_view(old(out)@) + strings_view(words@),
{
    let ghost start = strings_view(out@);
    let mut i: usize = 0;
    while i < words.len()
        invariant
            i <= words@.len(),
            strings_view(out@) == start + strings_view(words@).take(i as int),
        decreases words.len() - i,
    {
        let ghost before = strings_view(out@);
        out.push(words[i].clone());
        assert(strings_view(out@) =~= before.push(words@[i as int]@));
        assert(strings_view(words@).take(i + 1) =~= strings_view(words@).take(i as int).push(words@[i as int]@));
        i += 1;
    }
    assert(strings_view(words@).take(words@.len() as int) =~= strings_view(words@));
}

/// The arguments of `task` that modify the tasks with the words of `shell`,
/// or the message for a line that does not split into words.
pub fn modify_args(uuids: &Vec<u128>, shell: &str) -> (r: Result<Vec<String>, String>)
    ensures
        match shell_words(shell@) {
            Some(ws) => r matches Ok(v) && strings_view(v@) == bulk_args(uuids@, "modify"@, ws),
            None => r matches Err(m) && m@ == "Cannot shlex split `"@ + shell@ + "`"@,
        },
{
    bulk_command_args(uuids, "modify", shell)
}

/// The arguments of `task` that annotate the tasks with the words of
/// `shell`, or the message for a line that does not split into words.
pub fn annotate_args(uuids: &Vec<u128>, shell: &str) -> (r: Result<Vec<String>, String>)
    ensures
        match shell_words(shell@) {
            Some(ws) => r matches Ok(v) && strings_view(v@) == bulk_args(uuids@, "annotate"@, ws),
            None => r matches Err(m) && m@ == "Cannot shlex split `"@ + shell@ + "`"@,
        },
{
    bulk_command_args(uuids, "annotate", shell)
}

fn bulk_command_args(uuids: &Vec<u128>, verb: &str, shell: &str) -> (r: Result<Vec<String>, String>)
    ensures
        match shell_words(shell@) {
            Some(ws) => r matches Ok(v) && strings_view(v@) == bulk_args(uuids@, verb@, ws),
            None => r matches Err(m) && m@ == "Cannot shlex split `"@ + shell@ + "`"@,
        },
{
    match shlex_split(shell) {
        Some(words) => {
            let mut out: Vec<String> = Vec::new();
            push_bulk_prefix(&mut out, uuids);
            let ghost mid = strings_view(out@);
            out.push(string_of(chars_of(verb).as_slice()));
            assert(strings_view(out@) =~= mid.push(verb@));
            push_all_strings(&mut out, words);
            assert(strings_view(out@) =~= bulk_args(uuids@, verb@, shell_words(shell@)->0));
            Ok(out)
        },
        None => {
            let mut m = chars_of("Cannot shlex split `");
            push_str(&mut m, shell);
            push_str(&mut m, "`");
            Err(string_of(m.as_slice()))
        },
    }
}

/// The arguments of `task` that apply `verb` (`delete`, `done`) to the tasks.
pub fn bulk_verb_args(uuids: &Vec<u128>, verb: &str) -> (r: Vec<String>)
    ensures
        strings_view(r@) == bulk_args(uuids@, verb@, Seq::empty()),
{
    let mut out: Vec<String> = Vec::new();
    push_bulk_prefix(&mut out, uuids);
    let ghost mid = strings_view(out@);
    out.push(string_of(chars_of(verb).as_slice()));
    assert(strings_view(out@) =~= bulk_args(uuids@, verb@, Seq::empty()));
    out
}

/// The arguments of `task` that run `verb` (`add`, `log`) with the words of
/// `shell`, if it splits into words.
pub fn verb_args(verb: &str, shell: &str) -> (r: Option<Vec<String>>)
    ensures
        match shell_words(shell@) {
            Some(ws) => r matches Some(v) && strings_view(v@) == seq![verb@] + ws,
            None => r is None,
        },
{
    match shlex_split(shell) {
        Some(words) => {
            let mut out: Vec<String> = Vec::new();
            out.push(string_of(chars_of(verb).as_slice()));
            push_all_strings(&mut out, words);
            assert(strings_view(out@) =~= seq![verb@] + shell_words(shell@)->0);
            Some(out)
        },
        None => None,
    }
}

/// The program and arguments of a shell command line, or the message for a
/// line that is empty or does not split into words.
pub fn subprocess_args(shell: &str) -> (r: Result<Vec<String>, String>)
    ensures
        match shell_words(shell@) {
            Some(ws) => if ws.len() == 0 {
                r matches Err(m) && m@ == "Shell command empty: "@ + shell@
            } else {
                r matches Ok(v) && strings_view(v@) == ws
            },
            None => r matches Err(m) && m@ == "Cannot run subprocess. Unable to shlex split `"@ + shell@ + "`"@,
        },
{
    match shlex_split(shell) {
        Some(words) => {
            if words.len() == 0 {
                let mut m = chars_of("Shell command empty: ");
                push_str(&mut m, shell);
                Err(string_of(m.as_slice()))
            } else {
                Ok(words)
            }
        },
        None => {
            let mut m = chars_of("Cannot run subprocess. Unable to shlex split `");
            push_str(&mut m, shell);
            push_str(&mut m, "`");
            Err(string_of(m.as_slice()))
        },
    }
}

/// The UUIDs joined by spaces.
pub open spec fn uuids_joined(uuids: Seq<u128>) -> Seq<char> {
    crate::text::join(uuid_words(uuids), ' ')
}

/// The command line of shortcut `s` for the tasks: the shortcut, a space,
/// and the UUIDs; an error for a shortcut that is not set.
pub fn shortcut_line(shortcuts: &Vec<String>, s: usize, uuids: &Vec<u128>) -> (r: Result<String, String>)
    requires
        s < shortcuts@.len(),
    ensures
        shortcuts@[s as int]@.len() == 0 ==> (r matches Err(m) && m@ == "Trying to run empty shortcut."@),
        shortcuts@[s as int]@.len() > 0 ==> (r matches Ok(line) && line@ == shortcuts@[s as int]@ + seq![' ']
            + uuids_joined(uuids@)),
{
    let shell = chars_of(shortcuts[s].as_str());
    if shell.len() == 0 {
        return Err(string_of(chars_of("Trying to run empty shortcut.").as_slice()));
    }
    let mut words: Vec<Vec<char>> = Vec::new();
    let mut i: usize = 0;
    while i < uuids.len()
        invariant
            i <= uuids@.len(),
            crate::text::char_vecs(words@) == uuid_words(uuids@.take(i as int)),
        decreases uuids.len() - i,
    {
        let ghost before = crate::text::char_vecs(words@);
        let t = chars_of(uuid_text(uuids[i]).as_str());
        words.push(t);
        assert(crate::text::char_vecs(words@) =~= before.push(hyphenated(uuids@[i as int])));
        assert(uuid_words(uuids@.take(i + 1)) =~= uuid_words(uuids@.take(i as int)).push(hyphenated(uuids@[i as int])));
        i += 1;
    }
    assert(uuids@.take(uuids@.len() as int) =~= uuids@);
    let joined = crate::text::join_chars(&words, ' ');
    let mut line = shell;
    line.push(' ');
    push_all(&mut line, joined.as_slice());
    Ok(string_of(line.as_slice()))
}

/// The program and arguments of a shortcut's command line once `~` is
/// expanded in it, if it splits into words; nothing for no words.
pub fn shortcut_args(expanded: &str) -> (r: Option<Vec<String>>)
    ensures
        match shell_words(expanded@) {
            Some(ws) => if ws.len() > 0 {
                r matches Some(v) && strings_view(v@) == ws
            } else {
                r is None
            },
            None => r is None,
        },
{
    match shlex_split(expanded) {
        Some(words) => if words.len() > 0 {
            Some(words)
        } else {
            None
        },
        None => None,
    }
}

/// The arguments of `task` that toggle the quick tag of a task: `-TAG` if
/// the task has it, else `+TAG`, after its UUID and `modify`.
pub open spec fn quick_tag_word(tags: Seq<Seq<char>>, tag: Seq<char>) -> Seq<char> {
    if tags.contains(tag) {
        seq!['-'] + tag
    } else {
        seq!['+'] + tag
    }
}

/// The word that toggles the quick tag `tag` of a task with `tags`.
pub fn quick_tag_arg(tags: &Vec<String>, tag: &str) -> (r: String)
    ensures
        r@ == quick_tag_word(strings_view(tags@), tag@),
{
    let t = chars_of(tag);
    let mut found = false;
    let mut i: usize = 0;
    while i < tags.len()
        invariant
            i <= tags@.len(),
            t@ == tag@,
            found == strings_view(tags@).take(i as int).contains(tag@),
        decreases tags.len() - i,
    {
        let ghost pre = strings_view(tags@).take(i as int);
        let ghost nxt = strings_view(tags@).take(i + 1);
        assert(nxt =~= pre.push(tags@[i as int]@));
        if crate::text::chars_eq(chars_of(tags[i].as_str()).as_slice(), t.as_slice()) {
            found = true;
            assert(strings_view(tags@).take(i + 1)[i as int] == tag@);
        } else {
            proof {
                if pre.contains(tag@) {
                    let k = choose|k: int| 0 <= k < pre.len() && pre[k] == tag@;
                    assert(strings_view(tags@).take(i + 1)[k] == tag@);
                }
                if nxt.contains(tag@) {
                    let k = choose|k: int| 0 <= k < nxt.len() && nxt[k] == tag@;
                    if k < i {
                        assert(pre[k] == tag@);
                    }
                }
            }
        }
        i += 1;
    }
    assert(strings_view(tags@).take(tags@.len() as int) =~= strings_view(tags@));
    let mut out: Vec<char> = Vec::new();
    out.push(if found {
        '-'
    } else {
        '+'
    });
    push_all(&mut out, t.as_slice());
    string_of(out.as_slice())
}

/// `stop` for a task whose virtual tags (as `task _get` prints them, split
/// at spaces) hold `ACTIVE`, else `start`.
pub open spec fn start_or_stop(virtual_tags: Seq<char>) -> Seq<char> {
    if split_char(virtual_tags, ' ').contains("ACTIVE"@) {
        "stop"@
    } else {
        "start"@
    }
}

/// The verb that starts or stops a task, by its virtual tags.
pub fn start_stop_verb(virtual_tags: &str) -> (r: &'static str)
    ensures
        r@ == start_or_stop(virtual_tags@),
{
    let words = split_chars(chars_of(virtual_tags).as_slice(), ' ');
    let ghost ws = split_char(virtual_tags@, ' ');
    let mut active = false;
    let mut i: usize = 0;
    while i < words.len()
        invariant
            i <= words@.len(),
            words@.len() == ws.len(),
            forall|k: int| 0 <= k < words@.len() ==> #[trigger] words@[k]@ == ws[k],
            active == ws.take(i as int).contains("ACTIVE"@),
        decreases words.len() - i,
    {
        let ghost pre = ws.take(i as int);
        let ghost nxt = ws.take(i + 1);
        assert(nxt =~= pre.push(ws[i as int]));
        if crate::text::chars_eq_str(words[i].as_slice(), "ACTIVE") {
            active = true;
            assert(ws.take(i + 1)[i as int] == "ACTIVE"@);
        } else {
            proof {
                if pre.contains("ACTIVE"@) {
                    let k = choose|k: int| 0 <= k < pre.len() && pre[k] == "ACTIVE"@;
                    assert(ws.take(i + 1)[k] == "ACTIVE"@);
                }
                if nxt.contains("ACTIVE"@) {
                    let k = choose|k: int| 0 <= k < nxt.len() && nxt[k] == "ACTIVE"@;
                    if k < i {
                        assert(pre[k] == "ACTIVE"@);
                    }
                }
            }
        }
        i += 1;
    }
    assert(ws.take(ws.len() as int) =~= ws);
    if active {
        "stop"
    } else {
        "start"
    }
}

/// The pattern of the line that `task add` prints.
pub open spec fn created_pattern() -> Seq<char> {
    "^Created task (?P<task_id>\\d+).\\n$"@
}

/// The id of the task that `task add` reports it created, to move the cursor
/// to, when the interface jumps to added tasks: the number captured (0 for
/// one that does not fit), or nothing.
pub open spec fn created_task_id(jump: bool, output: Seq<char>) -> Option<u64> {
    if jump {
        match regex_capture(created_pattern(), output, "task_id"@) {
            Some(Some(d)) => Some(
                match parse_unsigned(d, u64::MAX as nat) {
                    Some(n) => n as u64,
                    None => 0,
                },
            ),
            _ => None,
        }
    } else {
        None
    }
}

/// The id of the task that `task add` reports it created, if the interface
/// jumps to added tasks.
pub fn task_added_id(jump: bool, output: &str) -> (r: Option<u64>)
    ensures
        r == created_task_id(jump, output@),
{
    if !jump {
        return None;
    }
    match capture("^Created task (?P<task_id>\\d+).\\n$", output, "task_id") {
        Some(Some(d)) => {
            let n = match parse_unsigned_chars(chars_of(d.as_str()).as_slice(), u64::MAX) {
                Some(n) => n,
                None => 0,
            };
            Some(n)
        },
        _ => None,
    }
}

/// The pattern of a UUID in what `task undo` prints.
pub open spec fn uuid_pattern() -> Seq<char> {
    "(?P<task_uuid>[a-fA-F0-9]{8}-[a-fA-F0-9]{4}-[a-fA-F0-9]{4}-[a-fA-F0-9]{4}-[a-fA-F0-9]{12})"@
}

/// The task that `task undo` reports it changed: the first UUID in its
/// output, if it reads as one.
pub open spec fn undone_task(output: Seq<char>) -> Option<u128> {
    match regex_capture(uuid_pattern(), output, "task_uuid"@) {
        Some(Some(t)) => uuid_parsed(t),
        _ => None,
    }
}

/// The task that `task undo` reports it changed.
pub fn task_undone_uuid(output: &str) -> (r: Option<u128>)
    ensures
        r == undone_task(output@),
{
    match capture(
        "(?P<task_uuid>[a-fA-F0-9]{8}-[a-fA-F0-9]{4}-[a-fA-F0-9]{4}-[a-fA-F0-9]{4}-[a-fA-F0-9]{12})",
        output,
        "task_uuid",
    ) {
        Some(Some(t)) => parse_uuid(t.as_str()),
        _ => None,
    }
}

/// The arguments of `task` that export the tasks of `report` under `filter`
/// and the context's filter: the report's filter set to the typed filter,
/// the context's filter as words (as one quoted pattern for versions of
/// taskwarrior before the context filters), `export`, and the report for
/// versions that take one.
pub open spec fn export_args_of(report: Seq<char>, filter: Seq<char>, context_filter: Seq<char>, supported: bool) -> Seq<
    Seq<char>,
> {
    let settings = seq!["rc.json.array=on"@, "rc.confirmation=off"@, "rc.json.depends.array=on"@, "rc.color=off"@, "rc._forcecolor=off"@];
    let report_filter = match shell_words(trim("rc.report."@ + report + ".filter='"@ + trim(filter) + "'"@)) {
        Some(ws) => ws,
        None => Seq::empty(),
    };
    let context = if trim(context_filter).len() > 0 && supported {
        match shell_words(context_filter) {
            Some(ws) => ws,
            None => Seq::empty(),
        }
    } else if trim(context_filter).len() > 0 {
        seq!["'\\("@ + context_filter + "\\)'"@]
    } else {
        Seq::empty()
    };
    settings + report_filter + context + seq!["export"@] + if supported {
        seq![report]
    } else {
        Seq::empty()
    }
}

/// The arguments of `task` that export the tasks of `report`.
pub fn export_args(report: &str, filter: &str, context_filter: &str, supported: bool) -> (r: Vec<String>)
    ensures
        strings_view(r@) == export_args_of(report@, filter@, context_filter@, supported),
{
    let mut out: Vec<String> = Vec::new();
    out.push(string_of(chars_of("rc.json.array=on").as_slice()));
    out.push(string_of(chars_of("rc.confirmation=off").as_slice()));
    out.push(string_of(chars_of("rc.json.depends.array=on").as_slice()));
    out.push(string_of(chars_of("rc.color=off").as_slice()));
    out.push(string_of(chars_of("rc._forcecolor=off").as_slice()));
    let ghost p0 = strings_view(out@);
    let mut f = chars_of("rc.report.");
    push_str(&mut f, report);
    push_str(&mut f, ".filter='");
    push_all(&mut f, trim_chars(chars_of(filter).as_slice()).as_slice());
    push_str(&mut f, "'");
    let fs = string_of(trim_chars(f.as_slice()).as_slice());
    match shlex_split(fs.as_str()) {
        Some(words) => push_all_strings(&mut out, words),
        None => {
            assert(strings_view(out@) =~= p0 + Seq::<Seq<char>>::empty());
        },
    }
    let ghost p1 = strings_view(out@);
    let ctx = chars_of(context_filter);
    let ctx_blank = trim_chars(ctx.as_slice()).len() == 0;
    if !ctx_blank && supported {
        match shlex_split(context_filter) {
            Some(words) => push_all_strings(&mut out, words),
            None => {
                assert(strings_view(out@) =~= p1 + Seq::<Seq<char>>::empty());
            },
        }
    } else if !ctx_blank {
        let mut q = chars_of("'\\(");
        push_all(&mut q, ctx.as_slice());
        push_str(&mut q, "\\)'");
        out.push(string_of(q.as_slice()));
        assert(strings_view(out@) =~= p1 + seq!["'\\("@ + context_filter@ + "\\)'"@]);
    } else {
        assert(strings_view(out@) =~= p1 + Seq::<Seq<char>>::empty());
    }
    let ghost p2 = strings_view(out@);
    out.push(string_of(chars_of("export").as_slice()));
    if supported {
        out.push(string_of(chars_of(report).as_slice()));
        assert(strings_view(out@) =~= p2 + seq!["export"@] + seq![report@]);
    } else {
        assert(strings_view(out@) =~= p2 + seq!["export"@] + Seq::<Seq<char>>::empty());
    }
    assert(p0 =~= seq!["rc.json.array=on"@, "rc.confirmation=off"@, "rc.json.depends.array=on"@, "rc.color=off"@, "rc._forcecolor=off"@]);
    out
}

/// The task to keep the cursor on after a command on `uuids`: the one task,
/// if the command acted on one.
pub fn single_uuid(uuids: &Vec<u128>) -> (r: Option<u128>)
    ensures
        uuids@.len() == 1 ==> r == Some(uuids@[0]),
        uuids@.len() != 1 ==> r is None,
{
    if uuids.len() == 1 {
        Some(uuids[0])
    } else {
        None
    }
}

/// The virtual tags that `task <uuid>` prints: the rest of the first line
/// that starts with `Virtual tags` (else `Virtual`), every such prefix in it
/// taken out.
pub open spec fn virtual_tags_in(lines: Seq<Seq<char>>) -> Option<Seq<char>>
    decreases lines.len(),
{
    if lines.len() == 0 {
        None
    } else if starts_with(lines[0], "Virtual tags"@) {
        Some(replace_all(lines[0], "Virtual tags"@, Seq::empty()))
    } else if starts_with(lines[0], "Virtual"@) {
        Some(replace_all(lines[0], "Virtual"@, Seq::empty()))
    } else {
        virtual_tags_in(lines.drop_first())
    }
}

/// The message for a task whose virtual tags were not found.
pub open spec fn no_virtual_tags_message(uuid: u128) -> Seq<char> {
    "Cannot find any tags for `task "@ + hyphenated(uuid)
        + "`. Check documentation for more information"@
}

/// The virtual tags of task `uuid`, from what `task <uuid>` printed.
pub fn virtual_tags_from_info(uuid: u128, output: &str) -> (r: Result<String, String>)
    ensures
        match virtual_tags_in(split_char(output@, '\n')) {
            Some(t) => r matches Ok(x) && x@ == t,
            None => r matches Err(e) && e@ == no_virtual_tags_message(uuid),
        },
{
    let lines = split_chars(chars_of(output).as_slice(), '\n');
    let ghost ls = split_char(output@, '\n');
    let long: Vec<char> = chars_of("Virtual tags");
    let short: Vec<char> = chars_of("Virtual");
    let empty: Vec<char> = Vec::new();
    proof {
        reveal_strlit("Virtual tags");
        reveal_strlit("Virtual");
        assert(ls.skip(0) =~= ls);
    }
    let mut i: usize = 0;
    while i < lines.len()
        invariant
            i <= lines@.len(),
            ls == split_char(output@, '\n'),
            lines@.len() == ls.len(),
            forall|k: int| 0 <= k < lines@.len() ==> #[trigger] lines@[k]@ == ls[k],
            long@ == "Virtual tags"@,
            short@ == "Virtual"@,
            long@.len() == 12,
            short@.len() == 7,
            empty@.len() == 0,
            virtual_tags_in(ls) == virtual_tags_in(ls.skip(i as int)),
        decreases lines.len() - i,
    {
        assert(ls.skip(i as int).len() > 0);
        assert(ls.skip(i as int)[0] == ls[i as int]);
        assert(ls.skip(i as int).drop_first() =~= ls.skip(i + 1));
        if has_prefix(lines[i].as_slice(), long.as_slice()) {
            let t = replace_all_chars(lines[i].as_slice(), long.as_slice(), empty.as_slice());
            assert(empty@ =~= Seq::<char>::empty());
            return Ok(string_of(t.as_slice()));
        }
        if has_prefix(lines[i].as_slice(), short.as_slice()) {
            let t = replace_all_chars(lines[i].as_slice(), short.as_slice(), empty.as_slice());
            assert(empty@ =~= Seq::<char>::empty());
            return Ok(string_of(t.as_slice()));
        }
        i = i + 1;
    }
    let mut m: Vec<char> = chars_of("Cannot find any tags for `task ");
    push_str(&mut m, uuid_text(uuid).as_str());
    push_str(&mut m, "`. Check documentation for more information");
    Err(string_of(m.as_slice()))
}

/// Whether version `v` of taskwarrior is at least version `min`, as the
/// `versions` crate reads and orders them; none where `v` does not read as
/// a version.
pub uninterp spec fn version_not_below(v: Seq<char>, min: Seq<char>) -> Option<bool>;

/// `versions::Versioning::new` of both texts, and whether the first is at
/// least the second. The contract names the result.
#[verifier::external_body]
fn version_at_least(v: &str, min: &str) -> (r: Option<bool>)
    ensures
        r == version_not_below(v@, min@),
{
    match (versions::Versioning::new(v), versions::Versioning::new(min)) {
        (Some(a), Some(b)) => Some(a >= b),
        _ => None,
    }
}

/// The oldest version of taskwarrior whose context filters the interface
/// uses.
pub open spec fn supported_version() -> Seq<char> {
    "2.6.0"@
}

/// Whether the taskwarrior that printed `output` to `task --version` is one
/// the interface fully supports, or the error when the output is no version.
pub fn version_supported(output: &str) -> (r: Result<bool, String>)
    ensures
        match version_not_below(trim(output@), supported_version()) {
            Some(b) => r == Ok::<bool, String>(b),
            None => r matches Err(e) && e@ == "Unable to get version string"@,
        },
{
    let t = string_of(trim_chars(chars_of(output).as_slice()).as_slice());
    match version_at_least(t.as_str(), "2.6.0") {
        Some(b) => Ok(b),
        None => Err("Unable to get version string".to_string()),
    }
}

} // verus!
