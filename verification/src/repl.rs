//! The commands of the interactive prompt: which command a line is, and the listing of the
//! builtins it prints.

use vstd::prelude::*;
use crate::builtin_table::BUILTIN_COUNT;
use crate::builtins::{Builtins, enabled_names};
use crate::builtins::system::{padded, pad_cell, size_of};
use crate::collate::{sort_texts, text_order, texts_of};
use crate::lexspec::utf8_size;
use crate::text::{chars_eq_str, chars_of, is_whitespace, string_from_chars, sub_chars, trim_chars, trim_v, unicode_whitespace};

verus! {

/// A command of the interactive prompt, read from a line (without its trailing whitespace)
/// when no input is pending.
#[derive(Debug, Clone, PartialEq)]
pub enum ReplCommand {
    /// `!exit`, `!e` or `!!`.
    Exit,
    /// `!bye`.
    Bye,
    /// `!goodbye`.
    Goodbye,
    /// `!highlight` or `!hl`: toggle syntax highlighting.
    Highlight,
    /// `!bfn`, `!` or `!bfn <preset>`: show or choose the builtin preset.
    Bfn(Option<String>),
    /// `!gb` or `!g`: the global bindings.
    Globals,
    /// `!reset` or `!r`.
    Reset,
    /// `!box` or `!b`: toggle boxed display.
    Boxed,
    /// `!xray` or `!x`: toggle the x-ray display of lists.
    Xray,
    /// `!i` or `!interpreter`: list the interpreters.
    Interpreters,
    /// `!i <name>` or `!interpreter <name>`: choose an interpreter.
    Interpreter(Option<String>),
    /// `!time` or `!t`: toggle timing.
    Time,
    /// `!t.` or `!time.`: time the next evaluation.
    TimeOnce,
    /// `!wqdb` or `!w`: toggle the debugger.
    Wqdb,
    /// `!wqdb.` or `!w.`: the debugger for the next evaluation.
    WqdbOnce,
    /// `!help`, `!h`, or either with a builtin's name.
    Help(Option<String>),
    /// `!debug`: the table of debug specifications.
    DebugTable,
    /// `!d`: switch the debug flags between off and the first alias.
    DebugToggle,
    /// `!d.<spec>` or `!debug.<spec>`: debug flags for the next evaluation.
    DebugOnce(String),
    /// `!d <spec>`, `!debug <spec>` or `!d<spec>`: set the debug flags.
    DebugSet(String),
    /// An empty line.
    Empty,
    /// Anything else: code to evaluate.
    Code,
}

/// A command of the prompt, with its texts as character sequences.
pub enum ReplCommandV {
    Exit,
    Bye,
    Goodbye,
    Highlight,
    Bfn(Option<Seq<char>>),
    Globals,
    Reset,
    Boxed,
    Xray,
    Interpreters,
    Interpreter(Option<Seq<char>>),
    Time,
    TimeOnce,
    Wqdb,
    WqdbOnce,
    Help(Option<Seq<char>>),
    DebugTable,
    DebugToggle,
    DebugOnce(Seq<char>),
    DebugSet(Seq<char>),
    Empty,
    Code,
}

/// An optional string as an optional character sequence.
pub open spec fn opt_seq(o: Option<String>) -> Option<Seq<char>> {
    match o {
        Some(s) => Some(s@),
        None => None,
    }
}

impl View for ReplCommand {
    type V = ReplCommandV;

    open spec fn view(&self) -> ReplCommandV {
        match self {
            ReplCommand::Exit => ReplCommandV::Exit,
            ReplCommand::Bye => ReplCommandV::Bye,
            ReplCommand::Goodbye => ReplCommandV::Goodbye,
            ReplCommand::Highlight => ReplCommandV::Highlight,
            ReplCommand::Bfn(p) => ReplCommandV::Bfn(opt_seq(*p)),
            ReplCommand::Globals => ReplCommandV::Globals,
            ReplCommand::Reset => ReplCommandV::Reset,
            ReplCommand::Boxed => ReplCommandV::Boxed,
            ReplCommand::Xray => ReplCommandV::Xray,
            ReplCommand::Interpreters => ReplCommandV::Interpreters,
            ReplCommand::Interpreter(p) => ReplCommandV::Interpreter(opt_seq(*p)),
            ReplCommand::Time => ReplCommandV::Time,
            ReplCommand::TimeOnce => ReplCommandV::TimeOnce,
            ReplCommand::Wqdb => ReplCommandV::Wqdb,
            ReplCommand::WqdbOnce => ReplCommandV::WqdbOnce,
            ReplCommand::Help(p) => ReplCommandV::Help(opt_seq(*p)),
            ReplCommand::DebugTable => ReplCommandV::DebugTable,
            ReplCommand::DebugToggle => ReplCommandV::DebugToggle,
            ReplCommand::DebugOnce(s) => ReplCommandV::DebugOnce(s@),
            ReplCommand::DebugSet(s) => ReplCommandV::DebugSet(s@),
            ReplCommand::Empty => ReplCommandV::Empty,
            ReplCommand::Code => ReplCommandV::Code,
        }
    }
}

/// Whether a text starts with a prefix.
pub open spec fn starts_v(s: Seq<char>, p: Seq<char>) -> bool {
    s.len() >= p.len() && s.subrange(0, p.len() as int) == p
}

/// The first index from `i` on that holds no whitespace (the length if none).
pub open spec fn skip_space(s: Seq<char>, i: int) -> int
    decreases s.len() - i,
{
    if i < 0 || i >= s.len() {
        if i < 0 { 0 } else { s.len() as int }
    } else if unicode_whitespace(s[i]) {
        skip_space(s, i + 1)
    } else {
        i
    }
}

/// The first index from `i` on that holds whitespace (the length if none).
pub open spec fn skip_word(s: Seq<char>, i: int) -> int
    decreases s.len() - i,
{
    if i < 0 || i >= s.len() {
        if i < 0 { 0 } else { s.len() as int }
    } else if unicode_whitespace(s[i]) {
        i
    } else {
        skip_word(s, i + 1)
    }
}

/// The second of the whitespace-separated words of a text, if it has two.
pub open spec fn second_word(s: Seq<char>) -> Option<Seq<char>> {
    let a = skip_space(s, 0);
    let b = skip_word(s, a);
    let c = skip_space(s, b);
    let d = skip_word(s, c);
    if c < d {
        Some(s.subrange(c, d))
    } else {
        None
    }
}

/// The index of the first occurrence of a character from `i` on.
pub open spec fn find_char(s: Seq<char>, c: char, i: int) -> Option<int>
    decreases s.len() - i,
{
    if i < 0 || i >= s.len() {
        None
    } else if s[i] == c {
        Some(i)
    } else {
        find_char(s, c, i + 1)
    }
}

/// What follows the first occurrence of a character, trimmed (empty where it does not
/// occur).
pub open spec fn rest_after(s: Seq<char>, c: char) -> Seq<char> {
    match find_char(s, c, 0) {
        Some(i) => trim_v(s.subrange(i + 1, s.len() as int)),
        None => Seq::empty(),
    }
}

/// The command that a line (without its trailing whitespace) is.
pub open spec fn classify_v(s: Seq<char>) -> ReplCommandV {
    if s == "!exit"@ || s == "!e"@ || s == "!!"@ {
        ReplCommandV::Exit
    } else if s == "!bye"@ {
        ReplCommandV::Bye
    } else if s == "!goodbye"@ {
        ReplCommandV::Goodbye
    } else if s == "!highlight"@ || s == "!hl"@ {
        ReplCommandV::Highlight
    } else if s == "!bfn"@ || s == "!"@ || starts_v(s, "!bfn "@) {
        ReplCommandV::Bfn(second_word(s))
    } else if s == "!gb"@ || s == "!g"@ {
        ReplCommandV::Globals
    } else if s == "!reset"@ || s == "!r"@ {
        ReplCommandV::Reset
    } else if s == "!box"@ || s == "!b"@ {
        ReplCommandV::Boxed
    } else if s == "!xray"@ || s == "!x"@ {
        ReplCommandV::Xray
    } else if s == "!i"@ || s == "!interpreter"@ {
        ReplCommandV::Interpreters
    } else if starts_v(s, "!i "@) || starts_v(s, "!interpreter "@) {
        ReplCommandV::Interpreter(second_word(s))
    } else if s == "!time"@ || s == "!t"@ {
        ReplCommandV::Time
    } else if s == "!t."@ || s == "!time."@ {
        ReplCommandV::TimeOnce
    } else if s == "!wqdb"@ || s == "!w"@ {
        ReplCommandV::Wqdb
    } else if s == "!wqdb."@ || s == "!w."@ {
        ReplCommandV::WqdbOnce
    } else if starts_v(s, "!help "@) || starts_v(s, "!h "@) || s == "!help"@ || s == "!h"@ {
        ReplCommandV::Help(second_word(s))
    } else if s == "!debug"@ {
        ReplCommandV::DebugTable
    } else if s == "!d"@ {
        ReplCommandV::DebugToggle
    } else if starts_v(s, "!d."@) || starts_v(s, "!debug."@) {
        ReplCommandV::DebugOnce(rest_after(s, '.'))
    } else if starts_v(s, "!d "@) || starts_v(s, "!debug "@) {
        ReplCommandV::DebugSet(rest_after(s, ' '))
    } else if starts_v(s, "!d"@) {
        ReplCommandV::DebugSet(trim_v(s.subrange(2, s.len() as int)))
    } else if s.len() == 0 {
        ReplCommandV::Empty
    } else {
        ReplCommandV::Code
    }
}

/// Whether some characters start with a prefix.
fn starts_with_str(v: &Vec<char>, p: &str) -> (r: bool)
    ensures
        r == starts_v(v@, p@),
{
    let pc = chars_of(p);
    if pc.len() > v.len() {
        return false;
    }
    let mut i: usize = 0;
    while i < pc.len()
        invariant
            pc@ == p@,
            pc@.len() <= v@.len(),
            i <= pc@.len(),
            forall|k: int| 0 <= k < i ==> v@[k] == pc@[k],
        decreases pc.len() - i,
    {
        if v[i] != pc[i] {
            assert(v@.subrange(0, pc@.len() as int)[i as int] != p@[i as int]);
            return false;
        }
        i += 1;
    }
    assert(v@.subrange(0, pc@.len() as int) =~= p@);
    true
}

fn skip_space_exec(v: &Vec<char>, i: usize) -> (r: usize)
    requires
        i <= v@.len(),
    ensures
        r as int == skip_space(v@, i as int),
        i <= r <= v@.len(),
{
    let mut j = i;
    while j < v.len() && is_whitespace(v[j])
        invariant
            i <= j <= v@.len(),
            skip_space(v@, i as int) == skip_space(v@, j as int),
        decreases v.len() - j,
    {
        j += 1;
    }
    j
}

fn skip_word_exec(v: &Vec<char>, i: usize) -> (r: usize)
    requires
        i <= v@.len(),
    ensures
        r as int == skip_word(v@, i as int),
        i <= r <= v@.len(),
{
    let mut j = i;
    while j < v.len() && !is_whitespace(v[j])
        invariant
            i <= j <= v@.len(),
            skip_word(v@, i as int) == skip_word(v@, j as int),
        decreases v.len() - j,
    {
        j += 1;
    }
    j
}

/// The second whitespace-separated word of a text.
fn second_word_exec(v: &Vec<char>) -> (r: Option<String>)
    ensures
        opt_seq(r) == second_word(v@),
{
    let a = skip_space_exec(v, 0);
    let b = skip_word_exec(v, a);
    let c = skip_space_exec(v, b);
    let d = skip_word_exec(v, c);
    if c < d {
        let w = sub_chars(v, c, d);
        Some(string_from_chars(w.as_slice()))
    } else {
        None
    }
}

/// What follows the first occurrence of a character, trimmed.
fn rest_after_exec(v: &Vec<char>, c: char) -> (r: String)
    ensures
        r@ == rest_after(v@, c),
{
    let mut i: usize = 0;
    while i < v.len()
        invariant
            i <= v@.len(),
            find_char(v@, c, 0) == find_char(v@, c, i as int),
        decreases v.len() - i,
    {
        if v[i] == c {
            let rest = sub_chars(v, i + 1, v.len());
            let t = trim_chars(&rest);
            return string_from_chars(t.as_slice());
        }
        i += 1;
    }
    String::new()
}

/// Reads the command that a line (without its trailing whitespace) is.
pub fn classify(line: &str) -> (r: ReplCommand)
    ensures
        r@ == classify_v(line@),
{
    let s = chars_of(line);
    if chars_eq_str(&s, "!exit") || chars_eq_str(&s, "!e") || chars_eq_str(&s, "!!") {
        ReplCommand::Exit
    } else if chars_eq_str(&s, "!bye") {
        ReplCommand::Bye
    } else if chars_eq_str(&s, "!goodbye") {
        ReplCommand::Goodbye
    } else if chars_eq_str(&s, "!highlight") || chars_eq_str(&s, "!hl") {
        ReplCommand::Highlight
    } else if chars_eq_str(&s, "!bfn") || chars_eq_str(&s, "!") || starts_with_str(&s, "!bfn ") {
        ReplCommand::Bfn(second_word_exec(&s))
    } else if chars_eq_str(&s, "!gb") || chars_eq_str(&s, "!g") {
        ReplCommand::Globals
    } else if chars_eq_str(&s, "!reset") || chars_eq_str(&s, "!r") {
        ReplCommand::Reset
    } else if chars_eq_str(&s, "!box") || chars_eq_str(&s, "!b") {
        ReplCommand::Boxed
    } else if chars_eq_str(&s, "!xray") || chars_eq_str(&s, "!x") {
        ReplCommand::Xray
    } else if chars_eq_str(&s, "!i") || chars_eq_str(&s, "!interpreter") {
        ReplCommand::Interpreters
    } else if starts_with_str(&s, "!i ") || starts_with_str(&s, "!interpreter ") {
        ReplCommand::Interpreter(second_word_exec(&s))
    } else if chars_eq_str(&s, "!time") || chars_eq_str(&s, "!t") {
        ReplCommand::Time
    } else if chars_eq_str(&s, "!t.") || chars_eq_str(&s, "!time.") {
        ReplCommand::TimeOnce
    } else if chars_eq_str(&s, "!wqdb") || chars_eq_str(&s, "!w") {
        ReplCommand::Wqdb
    } else if chars_eq_str(&s, "!wqdb.") || chars_eq_str(&s, "!w.") {
        ReplCommand::WqdbOnce
    } else if starts_with_str(&s, "!help ") || starts_with_str(&s, "!h ") || chars_eq_str(&s, "!help") || chars_eq_str(
        &s,
        "!h",
    ) {
        ReplCommand::Help(second_word_exec(&s))
    } else if chars_eq_str(&s, "!debug") {
        ReplCommand::DebugTable
    } else if chars_eq_str(&s, "!d") {
        ReplCommand::DebugToggle
    } else if starts_with_str(&s, "!d.") || starts_with_str(&s, "!debug.") {
        ReplCommand::DebugOnce(rest_after_exec(&s, '.'))
    } else if starts_with_str(&s, "!d ") || starts_with_str(&s, "!debug ") {
        ReplCommand::DebugSet(rest_after_exec(&s, ' '))
    } else if starts_with_str(&s, "!d") {
        proof {
            reveal_strlit("!d");
        }
        let rest = sub_chars(&s, 2, s.len());
        let t = trim_chars(&rest);
        ReplCommand::DebugSet(string_from_chars(t.as_slice()))
    } else if s.len() == 0 {
        ReplCommand::Empty
    } else {
        ReplCommand::Code
    }
}

/// The largest UTF-8 size among `names[..k]`.
pub open spec fn widest(names: Seq<Seq<char>>, k: int) -> nat
    decreases k,
{
    if k <= 0 || k > names.len() {
        0
    } else {
        let m = widest(names, k - 1);
        let c = utf8_size(names[k - 1]);
        if c > m {
            c
        } else {
            m
        }
    }
}

/// The listing of `names[..k]`: each padded to `w` and followed by a space, a line feed
/// after every sixth.
pub open spec fn listing_v(names: Seq<Seq<char>>, w: nat, k: int) -> Seq<char>
    decreases k,
{
    if k <= 0 || k > names.len() {
        Seq::empty()
    } else {
        listing_v(names, w, k - 1) + padded(names[k - 1], w) + seq![' '] + if k % 6 == 0 {
            seq!['\n']
        } else {
            Seq::empty()
        }
    }
}

/// The listing of the enabled builtins that the prompt prints: their names sorted, in
/// columns of the width of the longest, six to a line, and a final line feed.
pub open spec fn builtins_listing_v(en: Seq<bool>) -> Seq<char> {
    let names = enabled_names(en, BUILTIN_COUNT as int).sort_by(text_order());
    listing_v(names, widest(names, names.len() as int), names.len() as int) + seq!['\n']
}

/// The listing of the enabled builtins.
pub fn builtins_listing(b: &Builtins) -> (r: String)
    ensures
        r@ == builtins_listing_v(b@),
{
    let names = b.list_functions();
    let mut texts: Vec<Vec<char>> = Vec::new();
    let mut i: usize = 0;
    while i < names.len()
        invariant
            i <= names@.len(),
            texts@.len() == i,
            forall|q: int| 0 <= q < i ==> (#[trigger] texts@[q])@ == names@[q]@,
        decreases names.len() - i,
    {
        texts.push(chars_of(names[i].as_str()));
        i += 1;
    }
    assert(texts_of(texts@) =~= enabled_names(b@, BUILTIN_COUNT as int));
    let ghost en = texts_of(texts@);
    let sorted = sort_texts(texts);
    let ghost ns = texts_of(sorted@);
    assert(ns == en.sort_by(text_order()));
    let mut w: u128 = 0;
    let mut k: usize = 0;
    while k < sorted.len()
        invariant
            ns == texts_of(sorted@),
            k <= sorted@.len(),
            w == widest(ns, k as int),
        decreases sorted.len() - k,
    {
        assert(ns[k as int] == sorted@[k as int]@);
        let c = size_of(&sorted[k]);
        if c > w {
            w = c;
        }
        k += 1;
    }
    let mut out: Vec<char> = Vec::new();
    let mut j: usize = 0;
    while j < sorted.len()
        invariant
            ns == texts_of(sorted@),
            j <= sorted@.len(),
            w == widest(ns, ns.len() as int),
            out@ == listing_v(ns, w as nat, j as int),
        decreases sorted.len() - j,
    {
        assert(ns[j as int] == sorted@[j as int]@);
        pad_cell(&mut out, &sorted[j], w);
        out.push(' ');
        if (j + 1) % 6 == 0 {
            out.push('\n');
        }
        assert(out@ =~= listing_v(ns, w as nat, j + 1));
        j += 1;
    }
    out.push('\n');
    string_from_chars(out.as_slice())
}

/// The display modes and one-time settings of a prompt session, and its line number.
#[derive(Clone, Copy, PartialEq, Eq, Debug)]
pub struct ReplModes {
    pub time: bool,
    pub xray: bool,
    pub boxed: bool,
    pub highlight: bool,
    pub wqdb: bool,
    pub time_once: bool,
    pub wqdb_once: bool,
    pub line_number: u64,
}

impl ReplModes {
    /// A session at its first line, every mode off but the debugger as asked.
    pub fn new(wqdb: bool) -> (r: ReplModes)
        ensures
            r == (ReplModes {
                time: false,
                xray: false,
                boxed: false,
                highlight: false,
                wqdb,
                time_once: false,
                wqdb_once: false,
                line_number: 1,
            }),
    {
        ReplModes {
            time: false,
            xray: false,
            boxed: false,
            highlight: false,
            wqdb,
            time_once: false,
            wqdb_once: false,
            line_number: 1,
        }
    }
}

/// The modes after a command: each toggle flips its mode, the one-time commands set theirs,
/// and any other command leaves the modes as they are.
pub open spec fn toggled_v(m: ReplModes, c: ReplCommandV) -> ReplModes {
    match c {
        ReplCommandV::Highlight => ReplModes { highlight: !m.highlight, ..m },
        ReplCommandV::Boxed => ReplModes { boxed: !m.boxed, ..m },
        ReplCommandV::Xray => ReplModes { xray: !m.xray, ..m },
        ReplCommandV::Time => ReplModes { time: !m.time, ..m },
        ReplCommandV::TimeOnce => ReplModes { time_once: true, ..m },
        ReplCommandV::Wqdb => ReplModes { wqdb: !m.wqdb, ..m },
        ReplCommandV::WqdbOnce => ReplModes { wqdb_once: true, ..m },
        _ => m,
    }
}

/// The modes after a command of the prompt.
pub fn apply_command(m: ReplModes, c: &ReplCommand) -> (r: ReplModes)
    ensures
        r == toggled_v(m, c@),
{
    match c {
        ReplCommand::Highlight => ReplModes { highlight: !m.highlight, ..m },
        ReplCommand::Boxed => ReplModes { boxed: !m.boxed, ..m },
        ReplCommand::Xray => ReplModes { xray: !m.xray, ..m },
        ReplCommand::Time => ReplModes { time: !m.time, ..m },
        ReplCommand::TimeOnce => ReplModes { time_once: true, ..m },
        ReplCommand::Wqdb => ReplModes { wqdb: !m.wqdb, ..m },
        ReplCommand::WqdbOnce => ReplModes { wqdb_once: true, ..m },
        _ => m,
    }
}

/// What reading the buffered code came to: the input ended too early (more lines are
/// awaited), or it was read to an end (a result or another error).
#[derive(Clone, Copy, PartialEq, Eq, Debug)]
pub enum ReadOutcome {
    Incomplete,
    Finished,
}

/// What becomes of the buffered code: kept, with a line feed, for the next line; or dropped.
#[derive(Clone, Copy, PartialEq, Eq, Debug)]
pub enum BufferAction {
    KeepWithNewline,
    Clear,
}

/// The modes and buffer after an evaluation: the one-time settings are used up either way;
/// an incomplete input keeps the buffer and the line number, a finished one clears the
/// buffer and moves to the next line.
pub fn after_read(m: ReplModes, o: ReadOutcome) -> (r: (ReplModes, BufferAction))
    requires
        m.line_number < u64::MAX,
    ensures
        r.0 == (ReplModes {
            time_once: false,
            wqdb_once: false,
            line_number: if o == ReadOutcome::Finished {
                (m.line_number + 1) as u64
            } else {
                m.line_number
            },
            ..m
        }),
        r.1 == if o == ReadOutcome::Finished {
            BufferAction::Clear
        } else {
            BufferAction::KeepWithNewline
        },
{
    match o {
        ReadOutcome::Incomplete => (
            ReplModes { time_once: false, wqdb_once: false, ..m },
            BufferAction::KeepWithNewline,
        ),
        ReadOutcome::Finished => (
            ReplModes { time_once: false, wqdb_once: false, line_number: m.line_number + 1, ..m },
            BufferAction::Clear,
        ),
    }
}

} // verus!
