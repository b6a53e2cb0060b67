use vstd::prelude::*;

use crate::log::{record, record_view, records_view, Level, LogRecord};
use crate::text::{concat, is_blank, trim, trimmed};

verus! {

/// Outcome of one run of the conversion binary.
#[derive(Debug)]
pub struct ConversionResult {
    pub success: bool,
    pub output_path: Option<String>,
    pub error: Option<String>,
}

/// What a conversion runs: the output file, the command line echoed to the
/// log, and the arguments handed to the binary.
#[derive(Debug)]
pub struct ConversionPlan {
    pub output_path: String,
    pub echo: LogRecord,
    pub args: Vec<String>,
}

pub open spec fn is_separator(c: char) -> bool {
    c == '/' || c == '\\'
}

/// Index just past the last path separator of `p`, or 0 where it has none.
pub open spec fn name_start(p: Seq<char>) -> int
    decreases p.len(),
{
    if p.len() == 0 {
        0
    } else if is_separator(p.last()) {
        p.len() as int
    } else {
        name_start(p.drop_last())
    }
}

/// Whether `p` ends in a separator or in a `.` component (a `.` right after a
/// separator): endings that add no component to the path.
pub open spec fn ends_in_filler(p: Seq<char>) -> bool {
    p.len() > 0 && (is_separator(p.last()) || (p.len() >= 2 && p.last() == '.' && is_separator(
        p[p.len() - 2],
    )))
}

/// `p` without the separators and `.` components at its end.
pub open spec fn trim_tail(p: Seq<char>) -> Seq<char>
    decreases p.len(),
{
    if ends_in_filler(p) {
        trim_tail(p.drop_last())
    } else {
        p
    }
}

/// The last component of a path, once trailing separators and `.`
/// components are dropped.
pub open spec fn file_name_of(p: Seq<char>) -> Seq<char> {
    trim_tail(p).subrange(name_start(trim_tail(p)), trim_tail(p).len() as int)
}

/// What precedes the last component, separator included; empty for a bare
/// name.
pub open spec fn dir_prefix_of(p: Seq<char>) -> Seq<char> {
    trim_tail(p).subrange(0, name_start(trim_tail(p)))
}

/// The parent directory as written in front of a file name: the prefix
/// without its trailing separators and `.` components, then one separator;
/// the root alone where nothing else is left; empty for a bare name.
pub open spec fn out_dir_of(prefix: Seq<char>) -> Seq<char> {
    if prefix.len() == 0 {
        seq![]
    } else {
        prefix.subrange(0, trim_tail(prefix).len() + 1int)
    }
}

/// A file name names a file: it is neither empty nor `.` nor `..`.
pub open spec fn names_file(name: Seq<char>) -> bool {
    name.len() != 0 && name != seq!['.'] && name != seq!['.', '.']
}

/// Index of the last `.` in `s`, or -1.
pub open spec fn last_dot(s: Seq<char>) -> int
    decreases s.len(),
{
    if s.len() == 0 {
        -1
    } else if s.last() == '.' {
        s.len() - 1
    } else {
        last_dot(s.drop_last())
    }
}

/// The file name without its extension; a leading dot starts no extension.
pub open spec fn stem_of(name: Seq<char>) -> Seq<char> {
    if last_dot(name) <= 0 {
        name
    } else {
        name.subrange(0, last_dot(name))
    }
}

/// Where the conversion of `input` to `format` is written: in the input's
/// parent directory, under its stem with `format` as extension. None where the
/// input has no file name: it is empty, a root, or ends in `..` or a lone `.`.
pub open spec fn output_path_of(input: Seq<char>, format: Seq<char>) -> Option<Seq<char>> {
    if names_file(file_name_of(input)) {
        Some(
            out_dir_of(dir_prefix_of(input)) + stem_of(file_name_of(input)) + "."@ + format,
        )
    } else {
        None
    }
}

/// The command line as echoed to the log before the binary runs.
pub open spec fn conversion_echo(pandoc: Seq<char>, input: Seq<char>, output: Seq<char>) -> Seq<
    char,
> {
    "$ "@ + pandoc + " \""@ + input + "\" -o \""@ + output + "\""@
}

pub open spec fn invalid_input_message() -> Seq<char> {
    "Invalid input file name"@
}

proof fn lemma_name_start_step(p: Seq<char>, j: int)
    requires
        0 < j <= p.len(),
        !is_separator(p[j - 1]),
    ensures
        name_start(p.subrange(0, j)) == name_start(p.subrange(0, j - 1)),
{
    assert(p.subrange(0, j).drop_last() =~= p.subrange(0, j - 1));
}

proof fn lemma_name_start_after_separator(p: Seq<char>)
    ensures
        name_start(p) > 0 ==> is_separator(p[name_start(p) - 1]),
    decreases p.len(),
{
    if p.len() > 0 && !is_separator(p.last()) {
        lemma_name_start_after_separator(p.drop_last());
        lemma_name_start_bounds(p.drop_last());
    }
}

proof fn lemma_trim_tail_prefix(p: Seq<char>)
    ensures
        trim_tail(p).len() <= p.len(),
        trim_tail(p) == p.subrange(0, trim_tail(p).len() as int),
        p.len() > 0 && is_separator(p.last()) ==> trim_tail(p).len() < p.len(),
    decreases p.len(),
{
    if ends_in_filler(p) {
        lemma_trim_tail_prefix(p.drop_last());
        assert(p.drop_last().subrange(0, trim_tail(p).len() as int) =~= p.subrange(
            0,
            trim_tail(p).len() as int,
        ));
    } else {
        assert(p.subrange(0, p.len() as int) =~= p);
    }
}

proof fn lemma_trim_tail_step(p: Seq<char>, j: int)
    requires
        0 < j <= p.len(),
        ends_in_filler(p.subrange(0, j)),
    ensures
        trim_tail(p.subrange(0, j)) == trim_tail(p.subrange(0, j - 1)),
{
    assert(p.subrange(0, j).drop_last() =~= p.subrange(0, j - 1));
}

proof fn lemma_name_start_bounds(p: Seq<char>)
    ensures
        0 <= name_start(p) <= p.len(),
    decreases p.len(),
{
    if p.len() > 0 && !is_separator(p.last()) {
        lemma_name_start_bounds(p.drop_last());
    }
}

proof fn lemma_last_dot_bounds(p: Seq<char>)
    ensures
        -1 <= last_dot(p) < p.len(),
    decreases p.len(),
{
    if p.len() > 0 && p.last() != '.' {
        lemma_last_dot_bounds(p.drop_last());
    }
}

proof fn lemma_last_dot_step(p: Seq<char>, j: int)
    requires
        0 < j <= p.len(),
        p[j - 1] != '.',
    ensures
        last_dot(p.subrange(0, j)) == last_dot(p.subrange(0, j - 1)),
{
    assert(p.subrange(0, j).drop_last() =~= p.subrange(0, j - 1));
}

fn is_separator_char(c: char) -> (r: bool)
    ensures
        r == is_separator(c),
{
    c == '/' || c == '\\'
}

fn filler_end(p: &str, j: usize) -> (r: bool)
    requires
        0 < j <= p@.len(),
    ensures
        r == ends_in_filler(p@.subrange(0, j as int)),
{
    let c = p.get_char(j - 1);
    is_separator_char(c) || (j >= 2 && c == '.' && is_separator_char(p.get_char(j - 2)))
}

/// Length of `p` once its trailing separators and `.` components are dropped.
fn trimmed_tail_len(p: &str) -> (r: usize)
    ensures
        r == trim_tail(p@).len(),
        r <= p@.len(),
{
    let n = p.unicode_len();
    let mut j: usize = n;
    assert(p@.subrange(0, n as int) =~= p@);
    while j > 0 && filler_end(p, j)
        invariant
            j <= n,
            n == p@.len(),
            trim_tail(p@) == trim_tail(p@.subrange(0, j as int)),
        decreases j,
    {
        proof {
            lemma_trim_tail_step(p@, j as int);
        }
        j = j - 1;
    }
    proof {
        lemma_trim_tail_prefix(p@);
    }
    j
}

/// Index just past the last separator of `p`.
fn find_name_start(p: &str) -> (r: usize)
    ensures
        r == name_start(p@),
{
    let n = p.unicode_len();
    let mut j: usize = n;
    assert(p@.subrange(0, n as int) =~= p@);
    while j > 0 && !is_separator_char(p.get_char(j - 1))
        invariant
            j <= n,
            n == p@.len(),
            name_start(p@) == name_start(p@.subrange(0, j as int)),
        decreases j,
    {
        proof {
            lemma_name_start_step(p@, j as int);
        }
        j = j - 1;
    }
    j
}

/// Index of the last `.` of `s`, if any.
fn find_last_dot(s: &str) -> (r: Option<usize>)
    ensures
        match r {
            Some(i) => i == last_dot(s@),
            None => last_dot(s@) == -1,
        },
{
    let n = s.unicode_len();
    let mut j: usize = n;
    assert(s@.subrange(0, n as int) =~= s@);
    while j > 0 && s.get_char(j - 1) != '.'
        invariant
            j <= n,
            n == s@.len(),
            last_dot(s@) == last_dot(s@.subrange(0, j as int)),
        decreases j,
    {
        proof {
            lemma_last_dot_step(s@, j as int);
        }
        j = j - 1;
    }
    if j == 0 {
        None
    } else {
        Some(j - 1)
    }
}

/// The path that converting `input_path` to `output_format` writes.
pub fn output_path_for(input_path: &str, output_format: &str) -> (r: Result<String, String>)
    ensures
        match r {
            Ok(out) => output_path_of(input_path@, output_format@) == Some(out@),
            Err(e) => output_path_of(input_path@, output_format@) is None && e@
                == invalid_input_message(),
        },
{
    let t_len = trimmed_tail_len(input_path);
    proof {
        lemma_trim_tail_prefix(input_path@);
    }
    let t = input_path.substring_char(0, t_len);
    assert(t@ == trim_tail(input_path@));
    let n = t_len;
    let k = find_name_start(t);
    proof {
        lemma_name_start_bounds(t@);
        lemma_name_start_after_separator(t@);
    }
    let prefix = t.substring_char(0, k);
    let name = t.substring_char(k, n);
    let m = name.unicode_len();
    let is_dot_name = (m == 1 && name.get_char(0) == '.') || (m == 2 && name.get_char(0) == '.'
        && name.get_char(1) == '.');
    proof {
        if m == 1 && name@[0] == '.' {
            assert(name@ =~= seq!['.']);
        }
        if m == 2 && name@[0] == '.' && name@[1] == '.' {
            assert(name@ =~= seq!['.', '.']);
        }
    }
    if m == 0 || is_dot_name {
        return Err(String::from_str("Invalid input file name"));
    }
    proof {
        lemma_last_dot_bounds(name@);
    }
    let stem = match find_last_dot(name) {
        Some(d) => {
            if d == 0 {
                name
            } else {
                name.substring_char(0, d)
            }
        },
        None => name,
    };
    let d_len = if k == 0 {
        0
    } else {
        proof {
            lemma_trim_tail_prefix(prefix@);
            assert(prefix@.last() == t@[k - 1]);
        }
        trimmed_tail_len(prefix) + 1
    };
    let dir = prefix.substring_char(0, d_len);
    assert(dir@ == out_dir_of(prefix@));
    let out = concat(dir, stem).concat(".").concat(output_format);
    Ok(out)
}

/// Prepares the conversion of `input_path` to `output_format` with the binary
/// at `pandoc_path`: output path, echoed command, and `input -o output`.
pub fn plan_conversion(pandoc_path: &str, input_path: &str, output_format: &str) -> (r: Result<
    ConversionPlan,
    String,
>)
    ensures
        match r {
            Ok(plan) => {
                &&& output_path_of(input_path@, output_format@) == Some(plan.output_path@)
                &&& plan.echo.level == Level::Info
                &&& plan.echo.message@ == conversion_echo(
                    pandoc_path@,
                    input_path@,
                    plan.output_path@,
                )
                &&& plan.args@.len() == 3
                &&& plan.args@[0]@ == input_path@
                &&& plan.args@[1]@ == "-o"@
                &&& plan.args@[2]@ == plan.output_path@
            },
            Err(e) => output_path_of(input_path@, output_format@) is None && e@
                == invalid_input_message(),
        },
{
    let output_path = match output_path_for(input_path, output_format) {
        Ok(p) => p,
        Err(e) => {
            return Err(e);
        },
    };
    let echo_text = concat("$ ", pandoc_path).concat(" \"").concat(input_path).concat(
        "\" -o \"",
    ).concat(output_path.as_str()).concat("\"");
    let mut args: Vec<String> = Vec::new();
    args.push(input_path.to_owned());
    args.push(String::from_str("-o"));
    args.push(output_path.clone());
    Ok(ConversionPlan { output_path, echo: record(Level::Info, echo_text), args })
}

/// The log lines that follow the command echo of a conversion.
pub open spec fn conversion_log(
    output: Seq<char>,
    stdout: Seq<char>,
    stderr: Seq<char>,
    exit_success: bool,
) -> Seq<(Level, Seq<char>)> {
    (if is_blank(stdout) {
        seq![]
    } else {
        seq![(Level::Info, trimmed(stdout))]
    }) + (if is_blank(stderr) {
        seq![]
    } else {
        seq![(if exit_success { Level::Info } else { Level::Error }, trimmed(stderr))]
    }) + (if exit_success {
        seq![(Level::Success, "Successfully created: "@ + output)]
    } else {
        seq![]
    })
}

/// The log lines and the result of a conversion whose binary ran, given what
/// it wrote and whether it exited successfully.
pub fn conversion_outcome(output_path: &str, stdout: &str, stderr: &str, exit_success: bool) -> (r:
    (Vec<LogRecord>, ConversionResult))
    ensures
        records_view(r.0@) == conversion_log(output_path@, stdout@, stderr@, exit_success),
        r.1.success == exit_success,
        exit_success ==> r.1.output_path is Some && r.1.output_path->0@ == output_path@,
        exit_success ==> r.1.error is None,
        !exit_success ==> r.1.output_path is None,
        !exit_success ==> r.1.error is Some && r.1.error->0@ == trimmed(stderr@),
{
    let mut logs: Vec<LogRecord> = Vec::new();
    let out_text = trim(stdout);
    if out_text.unicode_len() > 0 {
        logs.push(record(Level::Info, out_text));
    }
    let err_text = trim(stderr);
    if err_text.unicode_len() > 0 {
        let level = if exit_success {
            Level::Info
        } else {
            Level::Error
        };
        logs.push(record(level, err_text.clone()));
    }
    if exit_success {
        logs.push(record(Level::Success, concat("Successfully created: ", output_path)));
    }
    assert(records_view(logs@) =~= conversion_log(output_path@, stdout@, stderr@, exit_success));
    let result = if exit_success {
        ConversionResult { success: true, output_path: Some(output_path.to_owned()), error: None }
    } else {
        ConversionResult { success: false, output_path: None, error: Some(err_text) }
    };
    (logs, result)
}

/// The message logged and returned when the binary cannot be started.
pub fn spawn_failure(reason: &str) -> (r: LogRecord)
    ensures
        r.level == Level::Error,
        r.message@ == "Failed to execute pandoc: "@ + reason@,
{
    record(Level::Error, concat("Failed to execute pandoc: ", reason))
}

/// The log line for a line of output: none where it is blank, else the line
/// trimmed.
pub open spec fn kept_line(line: Seq<char>) -> Seq<Seq<char>> {
    if is_blank(line) {
        seq![]
    } else {
        seq![trimmed(line)]
    }
}

/// The trimmed non-blank lines of `s`, where `cur` is the start of the line
/// that `s` continues.
pub open spec fn lines_after(s: Seq<char>, cur: Seq<char>) -> Seq<Seq<char>>
    decreases s.len(),
{
    if s.len() == 0 {
        kept_line(cur)
    } else if s[0] == '\n' {
        kept_line(cur) + lines_after(s.drop_first(), seq![])
    } else {
        lines_after(s.drop_first(), cur.push(s[0]))
    }
}

/// The trimmed non-blank lines of `s`, in order.
pub open spec fn nonblank_lines(s: Seq<char>) -> Seq<Seq<char>> {
    lines_after(s, seq![])
}

/// The log lines of a successful version probe: one per non-blank line.
pub open spec fn version_log(stdout: Seq<char>) -> Seq<(Level, Seq<char>)> {
    nonblank_lines(stdout).map_values(|l: Seq<char>| (Level::Success, l))
}

/// The command line echoed before the version probe runs.
pub fn version_command(pandoc_path: &str) -> (r: LogRecord)
    ensures
        r.level == Level::Info,
        r.message@ == "$ "@ + pandoc_path@ + " --version"@,
{
    record(Level::Info, concat("$ ", pandoc_path).concat(" --version"))
}

/// The trimmed non-blank lines of `s`, in order.
pub fn split_nonblank_lines(s: &str) -> (r: Vec<String>)
    ensures
        r@.map_values(|l: String| l@) == nonblank_lines(s@),
{
    let n = s.unicode_len();
    let mut out: Vec<String> = Vec::new();
    let mut start: usize = 0;
    let mut i: usize = 0;
    assert(s@.subrange(0, n as int) =~= s@);
    assert(s@.subrange(0, 0) =~= Seq::<char>::empty());
    while i < n
        invariant
            start <= i <= n,
            n == s@.len(),
            out@.map_values(|l: String| l@) + lines_after(
                s@.subrange(i as int, n as int),
                s@.subrange(start as int, i as int),
            ) == nonblank_lines(s@),
        decreases n - i,
    {
        let ghost rest = s@.subrange(i as int, n as int);
        let ghost cur = s@.subrange(start as int, i as int);
        assert(rest.drop_first() =~= s@.subrange(i + 1, n as int));
        assert(rest[0] == s@[i as int]);
        if s.get_char(i) == '\n' {
            let line = trim(s.substring_char(start, i));
            let ghost before = out@.map_values(|l: String| l@);
            if line.unicode_len() > 0 {
                out.push(line);
                assert(out@.map_values(|l: String| l@) =~= before + kept_line(cur));
            } else {
                assert(kept_line(cur) =~= Seq::<Seq<char>>::empty());
                assert(out@.map_values(|l: String| l@) =~= before + kept_line(cur));
            }
            assert(s@.subrange(i + 1, i + 1) =~= Seq::<char>::empty());
            start = i + 1;
        } else {
            assert(cur.push(s@[i as int]) =~= s@.subrange(start as int, i + 1));
        }
        i = i + 1;
    }
    let ghost cur = s@.subrange(start as int, n as int);
    let ghost before = out@.map_values(|l: String| l@);
    assert(s@.subrange(n as int, n as int) =~= Seq::<char>::empty());
    let line = trim(s.substring_char(start, n));
    if line.unicode_len() > 0 {
        out.push(line);
        assert(out@.map_values(|l: String| l@) =~= before + kept_line(cur));
    } else {
        assert(out@.map_values(|l: String| l@) =~= before + kept_line(cur));
    }
    out
}

/// The log lines and the result of a version probe whose binary ran: on
/// success every non-blank line of its output and that output; else its
/// diagnostics, trimmed for the log and whole as the error.
pub fn version_outcome(stdout: &str, stderr: &str, exit_success: bool) -> (r: (
    Vec<LogRecord>,
    Result<String, String>,
))
    ensures
        exit_success ==> records_view(r.0@) == version_log(stdout@),
        exit_success ==> r.1 is Ok && r.1->Ok_0@ == stdout@,
        !exit_success ==> records_view(r.0@) == seq![(Level::Error, trimmed(stderr@))],
        !exit_success ==> r.1 is Err && r.1->Err_0@ == stderr@,
{
    let mut logs: Vec<LogRecord> = Vec::new();
    if exit_success {
        let lines = split_nonblank_lines(stdout);
        let mut k: usize = 0;
        while k < lines.len()
            invariant
                k <= lines@.len(),
                lines@.map_values(|l: String| l@) == nonblank_lines(stdout@),
                records_view(logs@) =~= version_log(stdout@).subrange(0, k as int),
            decreases lines@.len() - k,
        {
            let rec = record(Level::Success, lines[k].clone());
            let ghost prev = logs@;
            logs.push(rec);
            assert(lines@.map_values(|l: String| l@)[k as int] == lines@[k as int]@);
            assert(logs@ =~= prev.push(rec));
            assert(records_view(logs@) =~= records_view(prev).push(record_view(rec)));
            assert(version_log(stdout@).subrange(0, k + 1) =~= version_log(stdout@).subrange(
                0,
                k as int,
            ).push((Level::Success, nonblank_lines(stdout@)[k as int])));
            k = k + 1;
        }
        assert(version_log(stdout@).subrange(0, k as int) =~= version_log(stdout@));
        (logs, Ok(stdout.to_owned()))
    } else {
        logs.push(record(Level::Error, trim(stderr)));
        assert(records_view(logs@) =~= seq![(Level::Error, trimmed(stderr@))]);
        (logs, Err(stderr.to_owned()))
    }
}

pub open spec fn is_success_line(e: (Level, Seq<char>)) -> bool {
    e.0 == Level::Success
}

proof fn lemma_filter_single(e: (Level, Seq<char>))
    ensures
        seq![e].filter(|x: (Level, Seq<char>)| is_success_line(x)) == if is_success_line(e) {
            seq![e]
        } else {
            seq![]
        },
{
    reveal_with_fuel(Seq::filter, 2);
    assert(seq![e].drop_last() =~= Seq::<(Level, Seq<char>)>::empty());
    assert(Seq::<(Level, Seq<char>)>::empty().filter(|x: (Level, Seq<char>)| is_success_line(x))
        =~= Seq::<(Level, Seq<char>)>::empty());
    if is_success_line(e) {
        assert(Seq::<(Level, Seq<char>)>::empty().push(e) =~= seq![e]);
    }
}

/// A conversion whose binary exits successfully logs exactly one success
/// line, the last one, and it names the output path.
pub proof fn lemma_success_logged_once(output: Seq<char>, stdout: Seq<char>, stderr: Seq<char>)
    ensures
        conversion_log(output, stdout, stderr, true).filter(
            |x: (Level, Seq<char>)| is_success_line(x),
        ) == seq![(Level::Success, "Successfully created: "@ + output)],
        conversion_log(output, stdout, stderr, true).last() == (
            Level::Success,
            "Successfully created: "@ + output,
        ),
{
    let done = (Level::Success, "Successfully created: "@ + output);
    let a: Seq<(Level, Seq<char>)> = if is_blank(stdout) {
        seq![]
    } else {
        seq![(Level::Info, trimmed(stdout))]
    };
    let b: Seq<(Level, Seq<char>)> = if is_blank(stderr) {
        seq![]
    } else {
        seq![(Level::Info, trimmed(stderr))]
    };
    let f = |x: (Level, Seq<char>)| is_success_line(x);
    assert(conversion_log(output, stdout, stderr, true) == a + b + seq![done]);
    Seq::filter_distributes_over_add(a + b, seq![done], f);
    Seq::filter_distributes_over_add(a, b, f);
    assert(Seq::<(Level, Seq<char>)>::empty().filter(f) =~= Seq::<(Level, Seq<char>)>::empty()) by {
        reveal_with_fuel(Seq::filter, 1);
    }
    if !is_blank(stdout) {
        lemma_filter_single((Level::Info, trimmed(stdout)));
    }
    if !is_blank(stderr) {
        lemma_filter_single((Level::Info, trimmed(stderr)));
    }
    lemma_filter_single(done);
    assert(a.filter(f) =~= Seq::<(Level, Seq<char>)>::empty());
    assert(b.filter(f) =~= Seq::<(Level, Seq<char>)>::empty());
    assert((a + b + seq![done]).filter(f) =~= seq![done]);
}

/// The greeting shown for `name`.
pub fn greet(name: &str) -> (r: String)
    ensures
        r@ == "Hello, "@ + name@ + "! You've been greeted from Rust!"@,
{
    concat("Hello, ", name).concat("! You've been greeted from Rust!")
}

} // verus!
