//! The command-line parser of the interpreter: flags, subcommands and positionals.
//!
//! A usage error exits with code 2; help and version requests are answered before anything
//! else is read.

use vstd::prelude::*;
use crate::debug_flags::{parse_u8, parse_u8_v};
use crate::text::{append_chars, append_str, chars_eq_str, chars_of, string_from_chars, sub_chars};

verus! {

/// Flags that change how a program runs.
#[derive(Debug, Clone, Copy, PartialEq, Eq, Structural)]
pub struct RuntimeFlags {
    pub wqdb: bool,
    pub bt: bool,
    pub debug_level: u8,
}

impl RuntimeFlags {
    /// The flags of a plain run: no debugger, backtraces on, debug level 0.
    pub fn new() -> (r: RuntimeFlags)
        ensures
            r == (RuntimeFlags { wqdb: false, bt: true, debug_level: 0 }),
    {
        RuntimeFlags { wqdb: false, bt: true, debug_level: 0 }
    }
}

impl Default for RuntimeFlags {
    /// Every flag off (backtraces off too) and debug level 0.
    fn default() -> (r: RuntimeFlags)
        ensures
            r == (RuntimeFlags { wqdb: false, bt: false, debug_level: 0 }),
    {
        RuntimeFlags { wqdb: false, bt: false, debug_level: 0 }
    }
}

/// Options of the formatter.
#[derive(Debug, Clone, Copy, PartialEq, Eq, Structural)]
pub struct FmtOpts {
    pub nlcd: bool,
    pub nbc: bool,
    pub olw: bool,
}

impl Default for FmtOpts {
    /// Every option off.
    fn default() -> (r: FmtOpts)
        ensures
            r == (FmtOpts { nlcd: false, nbc: false, olw: false }),
    {
        FmtOpts { nlcd: false, nbc: false, olw: false }
    }
}

/// Where the code of `exec` comes from.
#[derive(Debug, Clone)]
pub enum ExecSource {
    Stdin,
    Inline(String),
}

/// What the interpreter is asked to do.
#[derive(Debug, Clone)]
pub enum Command {
    Repl,
    Script(String),
    Exec(ExecSource),
    Fmt { script: String, opts: FmtOpts },
}

/// The result of reading the command line.
#[derive(Debug)]
pub enum ParseOutcome {
    Succeed(Parsed),
    ShowHelp,
    ShowVersion,
    Error { msg: String, code: i32 },
}

/// A command line that was understood.
#[derive(Debug)]
pub struct Parsed {
    pub runtime: RuntimeFlags,
    pub command: Command,
}

/// A command, with its texts as character sequences.
pub enum CommandV {
    Repl,
    Script(Seq<char>),
    ExecStdin,
    ExecInline(Seq<char>),
    Fmt(Seq<char>, FmtOpts),
}

impl View for Command {
    type V = CommandV;

    open spec fn view(&self) -> CommandV {
        match self {
            Command::Repl => CommandV::Repl,
            Command::Script(p) => CommandV::Script(p@),
            Command::Exec(ExecSource::Stdin) => CommandV::ExecStdin,
            Command::Exec(ExecSource::Inline(c)) => CommandV::ExecInline(c@),
            Command::Fmt { script, opts } => CommandV::Fmt(script@, *opts),
        }
    }
}

/// The result of reading the command line, with its texts as character sequences.
pub enum OutcomeV {
    Succeed(RuntimeFlags, CommandV),
    ShowHelp,
    ShowVersion,
    Error(Seq<char>, i32),
}

impl View for ParseOutcome {
    type V = OutcomeV;

    open spec fn view(&self) -> OutcomeV {
        match self {
            ParseOutcome::Succeed(p) => OutcomeV::Succeed(p.runtime, p.command@),
            ParseOutcome::ShowHelp => OutcomeV::ShowHelp,
            ParseOutcome::ShowVersion => OutcomeV::ShowVersion,
            ParseOutcome::Error { msg, code } => OutcomeV::Error(msg@, *code),
        }
    }
}

/// What has been read of the command line so far.
pub struct ArgScan {
    pub runtime: RuntimeFlags,
    pub opts: FmtOpts,
    pub mode_fmt: bool,
    pub command: Option<CommandV>,
    pub script: Option<Seq<char>>,
    pub fmt_script: Option<Seq<char>>,
    pub end_of_flags: bool,
    pub unknown: Seq<Seq<char>>,
    pub extras: Seq<Seq<char>>,
}

/// Nothing read yet.
pub open spec fn scan_start() -> ArgScan {
    ArgScan {
        runtime: RuntimeFlags { wqdb: false, bt: true, debug_level: 0 },
        opts: FmtOpts { nlcd: false, nbc: false, olw: false },
        mode_fmt: false,
        command: None,
        script: None,
        fmt_script: None,
        end_of_flags: false,
        unknown: Seq::empty(),
        extras: Seq::empty(),
    }
}

/// Whether an argument starts with `-`.
pub open spec fn dashed(s: Seq<char>) -> bool {
    s.len() > 0 && s[0] == '-'
}

/// Reading the positional argument `args[i]`: the subcommands `fmt` and `exec` (with the
/// argument after `exec`: `-` for standard input, or inline code that does not start with
/// `-`), the script of `fmt`, the main script, and anything more as an extra.
pub open spec fn positional_step(args: Seq<Seq<char>>, i: int, st: ArgScan) -> (int, ArgScan) {
    let s = args[i];
    if s == "fmt"@ && st.command is None && !st.end_of_flags {
        (i + 1, ArgScan { mode_fmt: true, ..st })
    } else if s == "exec"@ && st.command is None && !st.end_of_flags {
        if i + 1 < args.len() && args[i + 1] == "-"@ {
            (i + 2, ArgScan { command: Some(CommandV::ExecStdin), ..st })
        } else if i + 1 < args.len() && !dashed(args[i + 1]) {
            (i + 2, ArgScan { command: Some(CommandV::ExecInline(args[i + 1])), ..st })
        } else {
            (i + 1, ArgScan { command: Some(CommandV::ExecStdin), ..st })
        }
    } else if st.mode_fmt && st.fmt_script is None {
        (i + 1, ArgScan { fmt_script: Some(s), ..st })
    } else if !st.mode_fmt && st.command is None && st.script is None {
        (i + 1, ArgScan { script: Some(s), ..st })
    } else {
        (i + 1, ArgScan { extras: st.extras.push(s), ..st })
    }
}

/// Reading the flag `args[i]`; `-d` takes the next argument as its level where that is a
/// byte, and is level 1 otherwise; `-dN` gives level `N`.
pub open spec fn flag_step(args: Seq<Seq<char>>, i: int, st: ArgScan) -> (int, ArgScan) {
    let s = args[i];
    let rt = st.runtime;
    let op = st.opts;
    if s == "-w"@ || s == "--wqdb"@ {
        (i + 1, ArgScan { runtime: RuntimeFlags { wqdb: true, ..rt }, ..st })
    } else if s == "--no-bt"@ {
        (i + 1, ArgScan { runtime: RuntimeFlags { bt: false, ..rt }, ..st })
    } else if s == "--nlcd"@ {
        (i + 1, ArgScan { opts: FmtOpts { nlcd: true, ..op }, ..st })
    } else if s == "--nbc"@ {
        (i + 1, ArgScan { opts: FmtOpts { nbc: true, ..op }, ..st })
    } else if s == "--olw"@ {
        (i + 1, ArgScan { opts: FmtOpts { olw: true, ..op }, ..st })
    } else if s == "-d"@ {
        if i + 1 < args.len() && parse_u8_v(args[i + 1]) is Some {
            (i + 2, ArgScan { runtime: RuntimeFlags { debug_level: parse_u8_v(args[i + 1])->Some_0, ..rt }, ..st })
        } else {
            (i + 1, ArgScan { runtime: RuntimeFlags { debug_level: 1, ..rt }, ..st })
        }
    } else if s.len() >= 2 && s[0] == '-' && s[1] == 'd' {
        match parse_u8_v(s.subrange(2, s.len() as int)) {
            Some(n) => (i + 1, ArgScan { runtime: RuntimeFlags { debug_level: n, ..rt }, ..st }),
            None => (i + 1, ArgScan { unknown: st.unknown.push(s), ..st }),
        }
    } else {
        (i + 1, ArgScan { unknown: st.unknown.push(s), ..st })
    }
}

/// Reading the argument `args[i]`: `--` ends the flags; an argument that does not start
/// with `-`, or any after `--`, is positional; the rest are flags.
pub open spec fn scan_step(args: Seq<Seq<char>>, i: int, st: ArgScan) -> (int, ArgScan) {
    let s = args[i];
    if !st.end_of_flags && s == "--"@ {
        (i + 1, ArgScan { end_of_flags: true, ..st })
    } else if !dashed(s) || st.end_of_flags {
        positional_step(args, i, st)
    } else {
        flag_step(args, i, st)
    }
}

/// Reading the arguments from `args[i]` on.
pub open spec fn scan_from(args: Seq<Seq<char>>, i: int, st: ArgScan) -> ArgScan
    decreases args.len() - i,
{
    if i < 0 || i >= args.len() {
        st
    } else {
        let (j, next) = scan_step(args, i, st);
        if j <= i {
            next
        } else {
            scan_from(args, j, next)
        }
    }
}

/// Texts joined by a separator.
pub open spec fn join_v(parts: Seq<Seq<char>>, sep: Seq<char>) -> Seq<char>
    decreases parts.len(),
{
    if parts.len() == 0 {
        Seq::empty()
    } else if parts.len() == 1 {
        parts[0]
    } else {
        join_v(parts.drop_last(), sep) + sep + parts.last()
    }
}

/// Whether some argument is one of two texts.
pub open spec fn has_arg(args: Seq<Seq<char>>, a: Seq<char>, b: Seq<char>) -> bool {
    exists|k: int| 0 <= k < args.len() && (args[k] == a || args[k] == b)
}

/// The outcome once every argument has been read: the formatter with its script, refusing
/// unknown flags, extra positionals and runtime flags; `fmt` without a script; unknown flags;
/// extra positionals; otherwise the command chosen, the script, or the REPL by default.
pub open spec fn finish_v(st: ArgScan) -> OutcomeV {
    if let Some(f) = st.fmt_script {
        if st.unknown.len() > 0 {
            OutcomeV::Error("fmt: unknown flags: "@ + join_v(st.unknown, ", "@), 2)
        } else if st.extras.len() > 0 {
            OutcomeV::Error("fmt: unexpected positional arguments: "@ + join_v(st.extras, " "@), 2)
        } else if st.runtime.wqdb || !st.runtime.bt || st.runtime.debug_level > 0 {
            OutcomeV::Error("fmt: runtime flags are not supported"@, 2)
        } else {
            OutcomeV::Succeed(st.runtime, CommandV::Fmt(f, st.opts))
        }
    } else if st.mode_fmt {
        OutcomeV::Error("fmt: missing <script>"@, 2)
    } else if st.unknown.len() > 0 {
        OutcomeV::Error("unknown flags: "@ + join_v(st.unknown, ", "@), 2)
    } else if st.extras.len() > 0 {
        OutcomeV::Error("unexpected positional arguments: "@ + join_v(st.extras, " "@), 2)
    } else {
        match st.command {
            Some(c) => OutcomeV::Succeed(st.runtime, c),
            None => match st.script {
                Some(p) => OutcomeV::Succeed(st.runtime, CommandV::Script(p)),
                None => OutcomeV::Succeed(st.runtime, CommandV::Repl),
            },
        }
    }
}

/// What reading a command line gives: help where `-h` or `--help` is among the arguments,
/// else the version where `-v` or `--version` is, else the outcome of reading them all.
pub open spec fn parse_args_v(args: Seq<Seq<char>>) -> OutcomeV {
    if has_arg(args, "-h"@, "--help"@) {
        OutcomeV::ShowHelp
    } else if has_arg(args, "-v"@, "--version"@) {
        OutcomeV::ShowVersion
    } else {
        finish_v(scan_from(args, 0, scan_start()))
    }
}

/// The character sequences of some character vectors.
pub open spec fn texts_v(vs: Seq<Vec<char>>) -> Seq<Seq<char>> {
    vs.map_values(|v: Vec<char>| v@)
}

/// An optional character vector, as a sequence.
pub open spec fn opt_text(o: Option<Vec<char>>) -> Option<Seq<char>> {
    match o {
        Some(v) => Some(v@),
        None => None,
    }
}

/// What has been read of the command line so far.
struct ArgState {
    runtime: RuntimeFlags,
    opts: FmtOpts,
    mode_fmt: bool,
    command: Option<Command>,
    script: Option<Vec<char>>,
    fmt_script: Option<Vec<char>>,
    end_of_flags: bool,
    unknown: Vec<Vec<char>>,
    extras: Vec<Vec<char>>,
}

impl ArgState {
    spec fn view(&self) -> ArgScan {
        ArgScan {
            runtime: self.runtime,
            opts: self.opts,
            mode_fmt: self.mode_fmt,
            command: match self.command {
                Some(c) => Some(c@),
                None => None,
            },
            script: opt_text(self.script),
            fmt_script: opt_text(self.fmt_script),
            end_of_flags: self.end_of_flags,
            unknown: texts_v(self.unknown@),
            extras: texts_v(self.extras@),
        }
    }
}

/// Texts joined by a separator.
fn join_chars(parts: &Vec<Vec<char>>, sep: &str) -> (r: Vec<char>)
    ensures
        r@ == join_v(texts_v(parts@), sep@),
{
    let mut out: Vec<char> = Vec::new();
    let mut i: usize = 0;
    while i < parts.len()
        invariant
            i <= parts@.len(),
            out@ == join_v(texts_v(parts@.take(i as int)), sep@),
        decreases parts.len() - i,
    {
        let ghost prev = texts_v(parts@.take(i as int));
        assert(texts_v(parts@.take(i + 1)).drop_last() =~= prev);
        assert(texts_v(parts@.take(i + 1)).last() == parts@[i as int]@);
        if i > 0 {
            append_str(&mut out, sep);
        } else {
            assert(prev.len() == 0);
        }
        append_chars(&mut out, &parts[i]);
        i += 1;
    }
    assert(parts@.take(parts@.len() as int) =~= parts@);
    out
}

/// Moves a copy of some characters into a vector of texts.
fn push_text(v: &mut Vec<Vec<char>>, s: &Vec<char>)
    ensures
        texts_v(final(v)@) == texts_v(old(v)@).push(s@),
{
    let c = sub_chars(s, 0, s.len());
    assert(c@ =~= s@);
    v.push(c);
    assert(texts_v(v@) =~= texts_v(old(v)@).push(s@));
}

/// Reads the argument `args[i]`; gives the index of the next one to read.
fn scan_one(args: &Vec<Vec<char>>, i: usize, st: &mut ArgState) -> (j: usize)
    requires
        i < args@.len(),
    ensures
        (j as int, final(st)@) == scan_step(texts_v(args@), i as int, old(st)@),
        i < j <= args@.len(),
{
    let ghost av = texts_v(args@);
    let s = &args[i];
    assert(av[i as int] == s@);
    let n = args.len();
    if !st.end_of_flags && chars_eq_str(s, "--") {
        st.end_of_flags = true;
        return i + 1;
    }
    let dashed_arg = s.len() > 0 && s[0] == '-';
    if !dashed_arg || st.end_of_flags {
        if chars_eq_str(s, "fmt") && st.command.is_none() && !st.end_of_flags {
            st.mode_fmt = true;
            return i + 1;
        }
        if chars_eq_str(s, "exec") && st.command.is_none() && !st.end_of_flags {
            if i + 1 < n {
                let nxt = &args[i + 1];
                assert(av[i + 1] == nxt@);
                if chars_eq_str(nxt, "-") {
                    st.command = Some(Command::Exec(ExecSource::Stdin));
                    return i + 2;
                } else if !(nxt.len() > 0 && nxt[0] == '-') {
                    let code = string_from_chars(nxt.as_slice());
                    st.command = Some(Command::Exec(ExecSource::Inline(code)));
                    return i + 2;
                }
            }
            st.command = Some(Command::Exec(ExecSource::Stdin));
            return i + 1;
        }
        if st.mode_fmt && st.fmt_script.is_none() {
            st.fmt_script = Some(sub_chars(s, 0, s.len()));
            assert(s@.subrange(0, s@.len() as int) =~= s@);
            return i + 1;
        }
        if !st.mode_fmt && st.command.is_none() && st.script.is_none() {
            st.script = Some(sub_chars(s, 0, s.len()));
            assert(s@.subrange(0, s@.len() as int) =~= s@);
            return i + 1;
        }
        push_text(&mut st.extras, s);
        return i + 1;
    }
    if chars_eq_str(s, "-w") || chars_eq_str(s, "--wqdb") {
        st.runtime.wqdb = true;
        return i + 1;
    }
    if chars_eq_str(s, "--no-bt") {
        st.runtime.bt = false;
        return i + 1;
    }
    if chars_eq_str(s, "--nlcd") {
        st.opts.nlcd = true;
        return i + 1;
    }
    if chars_eq_str(s, "--nbc") {
        st.opts.nbc = true;
        return i + 1;
    }
    if chars_eq_str(s, "--olw") {
        st.opts.olw = true;
        return i + 1;
    }
    if chars_eq_str(s, "-d") {
        if i + 1 < n {
            assert(av[i + 1] == args@[i + 1]@);
            match parse_u8(&args[i + 1]) {
                Some(level) => {
                    st.runtime.debug_level = level;
                    return i + 2;
                },
                None => {},
            }
        }
        st.runtime.debug_level = 1;
        return i + 1;
    }
    if s.len() >= 2 && s[0] == '-' && s[1] == 'd' {
        let num = sub_chars(s, 2, s.len());
        match parse_u8(&num) {
            Some(level) => {
                st.runtime.debug_level = level;
            },
            None => {
                push_text(&mut st.unknown, s);
            },
        }
        return i + 1;
    }
    push_text(&mut st.unknown, s);
    i + 1
}

/// The outcome once every argument has been read.
fn finish(st: ArgState) -> (r: ParseOutcome)
    ensures
        r@ == finish_v(st@),
{
    let ArgState { runtime, opts, mode_fmt, command, script, fmt_script, end_of_flags: _, unknown, extras } = st;
    if let Some(f) = fmt_script {
        if unknown.len() > 0 {
            let mut m = chars_of("fmt: unknown flags: ");
            append_chars(&mut m, &join_chars(&unknown, ", "));
            return ParseOutcome::Error { msg: string_from_chars(m.as_slice()), code: 2 };
        }
        if extras.len() > 0 {
            let mut m = chars_of("fmt: unexpected positional arguments: ");
            append_chars(&mut m, &join_chars(&extras, " "));
            return ParseOutcome::Error { msg: string_from_chars(m.as_slice()), code: 2 };
        }
        if runtime.wqdb || !runtime.bt || runtime.debug_level > 0 {
            return ParseOutcome::Error { msg: String::from_str("fmt: runtime flags are not supported"), code: 2 };
        }
        return ParseOutcome::Succeed(
            Parsed { runtime, command: Command::Fmt { script: string_from_chars(f.as_slice()), opts } },
        );
    }
    if mode_fmt {
        return ParseOutcome::Error { msg: String::from_str("fmt: missing <script>"), code: 2 };
    }
    if unknown.len() > 0 {
        let mut m = chars_of("unknown flags: ");
        append_chars(&mut m, &join_chars(&unknown, ", "));
        return ParseOutcome::Error { msg: string_from_chars(m.as_slice()), code: 2 };
    }
    if extras.len() > 0 {
        let mut m = chars_of("unexpected positional arguments: ");
        append_chars(&mut m, &join_chars(&extras, " "));
        return ParseOutcome::Error { msg: string_from_chars(m.as_slice()), code: 2 };
    }
    let cmd = match command {
        Some(c) => c,
        None => match script {
            Some(p) => Command::Script(string_from_chars(p.as_slice())),
            None => Command::Repl,
        },
    };
    ParseOutcome::Succeed(Parsed { runtime, command: cmd })
}

/// Whether some argument is one of two texts.
fn find_arg(args: &Vec<Vec<char>>, a: &str, b: &str) -> (r: bool)
    ensures
        r == has_arg(texts_v(args@), a@, b@),
{
    let mut i: usize = 0;
    while i < args.len()
        invariant
            i <= args@.len(),
            forall|k: int| 0 <= k < i ==> !(texts_v(args@)[k] == a@ || texts_v(args@)[k] == b@),
        decreases args.len() - i,
    {
        assert(texts_v(args@)[i as int] == args@[i as int]@);
        if chars_eq_str(&args[i], a) || chars_eq_str(&args[i], b) {
            return true;
        }
        i += 1;
    }
    false
}

/// Reads the command line (without the program name).
pub fn parse_args(args: &Vec<String>) -> (r: ParseOutcome)
    ensures
        r@ == parse_args_v(args@.map_values(|s: String| s@)),
{
    let mut av: Vec<Vec<char>> = Vec::new();
    let mut k: usize = 0;
    while k < args.len()
        invariant
            k <= args@.len(),
            texts_v(av@) == args@.take(k as int).map_values(|s: String| s@),
        decreases args.len() - k,
    {
        let c = chars_of(args[k].as_str());
        assert(c@ == args@[k as int]@);
        let ghost before = av@;
        av.push(c);
        assert(texts_v(av@) =~= texts_v(before).push(c@));
        assert(args@.take(k + 1).map_values(|s: String| s@) =~= args@.take(k as int).map_values(|s: String| s@).push(
            args@[k as int]@,
        ));
        k += 1;
    }
    assert(args@.take(args@.len() as int) =~= args@);
    let ghost a = texts_v(av@);
    if find_arg(&av, "-h", "--help") {
        return ParseOutcome::ShowHelp;
    }
    if find_arg(&av, "-v", "--version") {
        return ParseOutcome::ShowVersion;
    }
    let mut st = ArgState {
        runtime: RuntimeFlags::new(),
        opts: FmtOpts { nlcd: false, nbc: false, olw: false },
        mode_fmt: false,
        command: None,
        script: None,
        fmt_script: None,
        end_of_flags: false,
        unknown: Vec::new(),
        extras: Vec::new(),
    };
    assert(st@.unknown =~= Seq::<Seq<char>>::empty());
    assert(st@.extras =~= Seq::<Seq<char>>::empty());
    assert(st@ == scan_start());
    let mut i: usize = 0;
    while i < av.len()
        invariant
            a == texts_v(av@),
            i <= av@.len(),
            scan_from(a, 0, scan_start()) == scan_from(a, i as int, st@),
        decreases av.len() - i,
    {
        i = scan_one(&av, i, &mut st);
    }
    finish(st)
}

/// Every usage error of the command line exits with code 2.
pub proof fn law_usage_errors_exit_with_2(args: Seq<Seq<char>>)
    ensures
        parse_args_v(args) matches OutcomeV::Error(_, code) ==> code == 2,
{
}

/// A request for help wins over everything else on the command line.
pub proof fn law_help_wins(args: Seq<Seq<char>>, k: int)
    requires
        0 <= k < args.len(),
        args[k] == "-h"@ || args[k] == "--help"@,
    ensures
        parse_args_v(args) == OutcomeV::ShowHelp,
{
}

} // verus!
