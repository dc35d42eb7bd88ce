//! The solver configuration file and its parser.
//!
//! A configuration file is text in a small TOML subset:
//!
//! ```text
//! [problems]
//! dir = "problems"
//! [solutions]
//! dir = "solutions"
//! [log]
//! level = "info"
//! output = "stdout"
//! ```
//!
//! (or `output = { file = "solver.log" }` to log to a file.)
//!
//! Each line holds at most one item: a `[section]` header or a
//! `key = "value"` pair.  Blank lines and `#` comment lines are skipped,
//! unknown sections and unknown keys are ignored, and a later binding of a
//! key wins over an earlier one.  The log level is matched case-insensitively.
//! [`Solver::from_file`] is verified to return exactly what the
//! specification-level grammar ([`parse_config`]) assigns to the text.

use vstd::prelude::*;

verus! {

// ---------------------------------------------------------------------------
// The configuration itself
// ---------------------------------------------------------------------------

/// The whole solver configuration.
#[derive(Clone, Debug, PartialEq, Eq)]
pub struct Solver {
    pub problems: Directory,
    pub solutions: Directory,
    pub log: Log,
}

/// A directory path, as the bytes written in the configuration file.
#[derive(Clone, Debug, PartialEq, Eq)]
pub struct Directory {
    pub dir: Vec<u8>,
}

/// Logging configuration.
#[derive(Clone, Debug, PartialEq, Eq)]
pub struct Log {
    pub level: LevelFilter,
    pub output: LogOutput,
}

/// Where log lines go.
#[derive(Clone, Debug, PartialEq, Eq)]
pub enum LogOutput {
    StdOut,
    File(Vec<u8>),
}

/// The most verbose severity that is logged.
#[derive(Clone, Copy, Debug, PartialEq, Eq, Structural)]
pub enum LevelFilter {
    Off,
    Error,
    Warn,
    Info,
    Debug,
    Trace,
}

/// Why a configuration text was rejected.
#[derive(Clone, Copy, Debug, PartialEq, Eq, Structural)]
pub enum ConfigError {
    /// A line is neither blank, a comment, a section header, nor a
    /// well-formed `key = "value"` pair.
    InvalidLine,
    /// `level` was set to something other than a severity name.
    InvalidLevel,
    /// `output` was set to something other than `"stdout"` or
    /// `{ file = "..." }`.
    InvalidOutput,
    /// One of the four required fields was never set.
    MissingField,
}

// ---------------------------------------------------------------------------
// Mathematical model of a configuration
// ---------------------------------------------------------------------------

/// Model of [`LogOutput`].
pub enum OutputModel {
    StdOut,
    File(Seq<u8>),
}

/// Model of a whole configuration.
pub struct ConfigModel {
    pub problems_dir: Seq<u8>,
    pub solutions_dir: Seq<u8>,
    pub level: LevelFilter,
    pub output: OutputModel,
}

impl View for LogOutput {
    type V = OutputModel;

    open spec fn view(&self) -> OutputModel {
        match self {
            LogOutput::StdOut => OutputModel::StdOut,
            LogOutput::File(path) => OutputModel::File(path@),
        }
    }
}

impl View for Solver {
    type V = ConfigModel;

    open spec fn view(&self) -> ConfigModel {
        ConfigModel {
            problems_dir: self.problems.dir@,
            solutions_dir: self.solutions.dir@,
            level: self.log.level,
            output: self.log.output@,
        }
    }
}

// ---------------------------------------------------------------------------
// The grammar, at the specification level
// ---------------------------------------------------------------------------

/// Horizontal whitespace: space, tab, carriage return.
pub open spec fn is_space(b: u8) -> bool {
    b == 32 || b == 9 || b == 13
}

/// `s` without leading whitespace.
pub open spec fn trim_front(s: Seq<u8>) -> Seq<u8>
    decreases s.len(),
{
    if s.len() > 0 && is_space(s[0]) {
        trim_front(s.drop_first())
    } else {
        s
    }
}

/// `s` without trailing whitespace.
pub open spec fn trim_back(s: Seq<u8>) -> Seq<u8>
    decreases s.len(),
{
    if s.len() > 0 && is_space(s.last()) {
        trim_back(s.drop_last())
    } else {
        s
    }
}

/// `s` without leading and trailing whitespace.
pub open spec fn trimmed(s: Seq<u8>) -> Seq<u8> {
    trim_back(trim_front(s))
}

/// Index of the first occurrence of `b` in `s`, or -1 if `b` does not occur.
pub open spec fn first_at(s: Seq<u8>, b: u8) -> int
    decreases s.len(),
{
    if s.len() == 0 {
        -1
    } else if s[0] == b {
        0
    } else if first_at(s.drop_first(), b) < 0 {
        -1
    } else {
        first_at(s.drop_first(), b) + 1
    }
}

/// What `first_at` returns: -1 exactly when `b` does not occur, else the
/// least index holding `b`.
pub proof fn lemma_first_at(s: Seq<u8>, b: u8)
    ensures
        first_at(s, b) == -1 ==> forall|i: int| 0 <= i < s.len() ==> s[i] != b,
        first_at(s, b) != -1 ==> 0 <= first_at(s, b) < s.len() && s[first_at(s, b)] == b
            && forall|i: int| 0 <= i < first_at(s, b) ==> s[i] != b,
    decreases s.len(),
{
    if s.len() > 0 && s[0] != b {
        let t = s.drop_first();
        lemma_first_at(t, b);
        let r = first_at(t, b);
        if r == -1 {
            assert forall|i: int| 0 <= i < s.len() implies s[i] != b by {
                if i > 0 {
                    assert(t[i - 1] == s[i]);
                }
            }
        } else {
            assert(s[r + 1] == t[r]);
            assert forall|i: int| 0 <= i < r + 1 implies s[i] != b by {
                if i > 0 {
                    assert(t[i - 1] == s[i]);
                }
            }
        }
    }
}

/// The text split at line feeds.  A trailing line feed yields a final empty
/// line, which the scanner skips.
pub open spec fn spec_lines(t: Seq<u8>) -> Seq<Seq<u8>>
    decreases t.len(),
    via spec_lines_termination
{
    let i = first_at(t, 10);
    if i < 0 {
        seq![t]
    } else {
        seq![t.subrange(0, i)] + spec_lines(t.subrange(i + 1, t.len() as int))
    }
}

#[via_fn]
proof fn spec_lines_termination(t: Seq<u8>) {
    lemma_first_at(t, 10);
}

/// One parsed value: a quoted string, or the inline table `{ key = "..." }`.
pub enum ValueItem {
    Str(Seq<u8>),
    Table(Seq<u8>, Seq<u8>),
}

/// One parsed line.
pub enum LineItem {
    /// Blank or comment.
    Skip,
    /// `[name]`.
    Header(Seq<u8>),
    /// `key = value`.
    Pair(Seq<u8>, ValueItem),
    /// Anything else.
    Bad,
}

/// A quoted string: `"..."` with no quote and no backslash inside.
pub open spec fn parse_quoted(v: Seq<u8>) -> Option<Seq<u8>> {
    if v.len() >= 2 && v[0] == 34 && v.last() == 34 && first_at(v.subrange(1, v.len() - 1), 34)
        == -1 && first_at(v.subrange(1, v.len() - 1), 92) == -1 {
        Some(v.subrange(1, v.len() - 1))
    } else {
        None
    }
}

/// A value: a quoted string, or `{ key = "..." }`.
pub open spec fn parse_value(v: Seq<u8>) -> Option<ValueItem> {
    if v.len() > 0 && v[0] == 34 {
        match parse_quoted(v) {
            Some(s) => Some(ValueItem::Str(s)),
            None => None,
        }
    } else if v.len() >= 2 && v[0] == 123 && v.last() == 125 {
        let inner = trimmed(v.subrange(1, v.len() - 1));
        let e = first_at(inner, 61);
        if e <= 0 {
            None
        } else {
            let k = trimmed(inner.subrange(0, e));
            let w = trimmed(inner.subrange(e + 1, inner.len() as int));
            match parse_quoted(w) {
                Some(s) => Some(ValueItem::Table(k, s)),
                None => None,
            }
        }
    } else {
        None
    }
}

/// One line of the file: blank/comment, `[section]`, or `key = value`.
pub open spec fn parse_line(l: Seq<u8>) -> LineItem {
    let s = trimmed(l);
    if s.len() == 0 || s[0] == 35 {
        LineItem::Skip
    } else if s[0] == 91 {
        if s.len() >= 2 && s.last() == 93 && {
            let name = trimmed(s.subrange(1, s.len() - 1));
            name.len() > 0 && first_at(name, 91) == -1 && first_at(name, 93) == -1
        } {
            LineItem::Header(trimmed(s.subrange(1, s.len() - 1)))
        } else {
            LineItem::Bad
        }
    } else {
        let e = first_at(s, 61);
        if e <= 0 {
            LineItem::Bad
        } else {
            let k = trimmed(s.subrange(0, e));
            let v = trimmed(s.subrange(e + 1, s.len() as int));
            if k.len() == 0 {
                LineItem::Bad
            } else {
                match parse_value(v) {
                    Some(vi) => LineItem::Pair(k, vi),
                    None => LineItem::Bad,
                }
            }
        }
    }
}

// ---------------------------------------------------------------------------
// Names and their classification
// ---------------------------------------------------------------------------

/// ASCII upper case folded to lower case.
pub open spec fn to_lower(b: u8) -> u8 {
    if 65 <= b <= 90 {
        (b + 32) as u8
    } else {
        b
    }
}

/// The sequence folded to lower case.
pub open spec fn lower_seq(s: Seq<u8>) -> Seq<u8> {
    s.map_values(|b: u8| to_lower(b))
}

/// The section a header name selects.  Unknown sections are read but bind
/// nothing; `Preamble` is where the scanner starts, before any header.
#[derive(Clone, Copy, Debug, PartialEq, Eq, Structural)]
pub enum Section {
    Preamble,
    Problems,
    Solutions,
    Log,
    Other,
}

/// `"problems"`, as bytes.
pub open spec fn name_problems() -> Seq<u8> {
    seq![112u8, 114u8, 111u8, 98u8, 108u8, 101u8, 109u8, 115u8]
}

/// `"solutions"`, as bytes.
pub open spec fn name_solutions() -> Seq<u8> {
    seq![115u8, 111u8, 108u8, 117u8, 116u8, 105u8, 111u8, 110u8, 115u8]
}

/// `"log"`, as bytes.
pub open spec fn name_log() -> Seq<u8> {
    seq![108u8, 111u8, 103u8]
}

/// `"dir"`, as bytes.
pub open spec fn name_dir() -> Seq<u8> {
    seq![100u8, 105u8, 114u8]
}

/// `"level"`, as bytes.
pub open spec fn name_level() -> Seq<u8> {
    seq![108u8, 101u8, 118u8, 101u8, 108u8]
}

/// `"output"`, as bytes.
pub open spec fn name_output() -> Seq<u8> {
    seq![111u8, 117u8, 116u8, 112u8, 117u8, 116u8]
}

/// `"file"`, as bytes.
pub open spec fn name_file() -> Seq<u8> {
    seq![102u8, 105u8, 108u8, 101u8]
}

/// `"stdout"`, as bytes.
pub open spec fn name_stdout() -> Seq<u8> {
    seq![115u8, 116u8, 100u8, 111u8, 117u8, 116u8]
}

/// Which section a header name selects.
pub open spec fn section_of(name: Seq<u8>) -> Section {
    if name == name_problems() {
        Section::Problems
    } else if name == name_solutions() {
        Section::Solutions
    } else if name == name_log() {
        Section::Log
    } else {
        Section::Other
    }
}

/// `"off"`, as bytes.
pub open spec fn name_off() -> Seq<u8> {
    seq![111u8, 102u8, 102u8]
}

/// `"error"`, as bytes.
pub open spec fn name_error() -> Seq<u8> {
    seq![101u8, 114u8, 114u8, 111u8, 114u8]
}

/// `"warn"`, as bytes.
pub open spec fn name_warn() -> Seq<u8> {
    seq![119u8, 97u8, 114u8, 110u8]
}

/// `"info"`, as bytes.
pub open spec fn name_info() -> Seq<u8> {
    seq![105u8, 110u8, 102u8, 111u8]
}

/// `"debug"`, as bytes.
pub open spec fn name_debug() -> Seq<u8> {
    seq![100u8, 101u8, 98u8, 117u8, 103u8]
}

/// `"trace"`, as bytes.
pub open spec fn name_trace() -> Seq<u8> {
    seq![116u8, 114u8, 97u8, 99u8, 101u8]
}

/// The severity filter a (case-insensitive) name selects, if any.
pub open spec fn level_of(s: Seq<u8>) -> Option<LevelFilter> {
    let l = lower_seq(s);
    if l == name_off() {
        Some(LevelFilter::Off)
    } else if l == name_error() {
        Some(LevelFilter::Error)
    } else if l == name_warn() {
        Some(LevelFilter::Warn)
    } else if l == name_info() {
        Some(LevelFilter::Info)
    } else if l == name_debug() {
        Some(LevelFilter::Debug)
    } else if l == name_trace() {
        Some(LevelFilter::Trace)
    } else {
        None
    }
}

// ---------------------------------------------------------------------------
// The scan over the lines
// ---------------------------------------------------------------------------

/// Scanner state: the section the scanner is in, and the fields bound so
/// far.
pub struct StateModel {
    pub section: Section,
    pub problems_dir: Option<Seq<u8>>,
    pub solutions_dir: Option<Seq<u8>>,
    pub level: Option<LevelFilter>,
    pub output: Option<OutputModel>,
}

/// Where the scan starts: in the preamble, nothing bound.
pub open spec fn init_state() -> StateModel {
    StateModel {
        section: Section::Preamble,
        problems_dir: None,
        solutions_dir: None,
        level: None,
        output: None,
    }
}

/// The scanner state after one line: headers switch the section, known keys
/// of known sections bind a field (the later binding winning), anything that
/// does not lex is an error.
pub open spec fn step_line(st: StateModel, l: Seq<u8>) -> Result<StateModel, ConfigError> {
    match parse_line(l) {
        LineItem::Skip => Ok(st),
        LineItem::Bad => Err(ConfigError::InvalidLine),
        LineItem::Header(name) => Ok(StateModel { section: section_of(name), ..st }),
        LineItem::Pair(k, v) => match st.section {
            Section::Problems => if k == name_dir() {
                match v {
                    ValueItem::Str(s) => Ok(StateModel { problems_dir: Some(s), ..st }),
                    ValueItem::Table(_, _) => Err(ConfigError::InvalidLine),
                }
            } else {
                Ok(st)
            },
            Section::Solutions => if k == name_dir() {
                match v {
                    ValueItem::Str(s) => Ok(StateModel { solutions_dir: Some(s), ..st }),
                    ValueItem::Table(_, _) => Err(ConfigError::InvalidLine),
                }
            } else {
                Ok(st)
            },
            Section::Log => if k == name_level() {
                match v {
                    ValueItem::Str(s) => match level_of(s) {
                        Some(lf) => Ok(StateModel { level: Some(lf), ..st }),
                        None => Err(ConfigError::InvalidLevel),
                    },
                    ValueItem::Table(_, _) => Err(ConfigError::InvalidLevel),
                }
            } else if k == name_output() {
                match v {
                    ValueItem::Str(s) => if s == name_stdout() {
                        Ok(StateModel { output: Some(OutputModel::StdOut), ..st })
                    } else {
                        Err(ConfigError::InvalidOutput)
                    },
                    ValueItem::Table(tk, s) => if tk == name_file() {
                        Ok(StateModel { output: Some(OutputModel::File(s)), ..st })
                    } else {
                        Err(ConfigError::InvalidOutput)
                    },
                }
            } else {
                Ok(st)
            },
            Section::Preamble => Ok(st),
            Section::Other => Ok(st),
        },
    }
}

/// The scanner state after a sequence of lines; the first bad line wins.
pub open spec fn scan(lines: Seq<Seq<u8>>, st: StateModel) -> Result<StateModel, ConfigError>
    decreases lines.len(),
{
    if lines.len() == 0 {
        Ok(st)
    } else {
        match step_line(st, lines[0]) {
            Err(e) => Err(e),
            Ok(st2) => scan(lines.drop_first(), st2),
        }
    }
}

/// The configuration a final scanner state denotes: every field must have
/// been bound.
pub open spec fn finish_state(st: StateModel) -> Result<ConfigModel, ConfigError> {
    match (st.problems_dir, st.solutions_dir, st.level, st.output) {
        (Some(p), Some(s), Some(lv), Some(o)) => Ok(
            ConfigModel { problems_dir: p, solutions_dir: s, level: lv, output: o },
        ),
        _ => Err(ConfigError::MissingField),
    }
}

/// What a configuration text means: the scan of its lines, finished.
pub open spec fn parse_config(t: Seq<u8>) -> Result<ConfigModel, ConfigError> {
    match scan(spec_lines(t), init_state()) {
        Err(e) => Err(e),
        Ok(st) => finish_state(st),
    }
}

// ---------------------------------------------------------------------------
// Byte plumbing
// ---------------------------------------------------------------------------

/// The bytes of `v` from `lo` (inclusive) to `hi` (exclusive).
fn copy_range(v: &Vec<u8>, lo: usize, hi: usize) -> (r: Vec<u8>)
    requires
        lo <= hi <= v@.len(),
    ensures
        r@ == v@.subrange(lo as int, hi as int),
{
    let mut r: Vec<u8> = Vec::new();
    let mut i: usize = lo;
    while i < hi
        invariant
            lo <= i <= hi <= v@.len(),
            r@ == v@.subrange(lo as int, i as int),
        decreases hi - i,
    {
        r.push(v[i]);
        proof {
            assert(v@.subrange(lo as int, i + 1) =~= v@.subrange(lo as int, i as int).push(
                v@[i as int],
            ));
        }
        i = i + 1;
    }
    r
}

/// Index of the first occurrence of `b` in `v`, if `b` occurs.
fn find_byte(v: &Vec<u8>, b: u8) -> (r: Option<usize>)
    ensures
        r matches Some(i) ==> first_at(v@, b) == i && i < v@.len(),
        r is None ==> first_at(v@, b) == -1,
{
    let mut i: usize = 0;
    while i < v.len()
        invariant
            i <= v@.len(),
            forall|k: int| 0 <= k < i ==> v@[k] != b,
        decreases v@.len() - i,
    {
        if v[i] == b {
            proof {
                lemma_first_at(v@, b);
            }
            return Some(i);
        }
        i = i + 1;
    }
    proof {
        lemma_first_at(v@, b);
    }
    None
}

/// `v` without leading and trailing whitespace.
fn trim_vec(v: &Vec<u8>) -> (r: Vec<u8>)
    ensures
        r@ == trimmed(v@),
{
    let n = v.len();
    proof {
        assert(v@.subrange(0, n as int) =~= v@);
    }
    let mut lo: usize = 0;
    while lo < n && (v[lo] == 32 || v[lo] == 9 || v[lo] == 13)
        invariant
            lo <= n,
            n == v@.len(),
            trim_front(v@) == trim_front(v@.subrange(lo as int, n as int)),
        decreases n - lo,
    {
        proof {
            let s = v@.subrange(lo as int, n as int);
            assert(s[0] == v@[lo as int]);
            assert(s.drop_first() =~= v@.subrange(lo + 1, n as int));
        }
        lo = lo + 1;
    }
    proof {
        let s = v@.subrange(lo as int, n as int);
        if lo < n {
            assert(s[0] == v@[lo as int]);
        }
        assert(trim_front(s) == s);
    }
    let mut hi: usize = n;
    while hi > lo && (v[hi - 1] == 32 || v[hi - 1] == 9 || v[hi - 1] == 13)
        invariant
            lo <= hi <= n,
            n == v@.len(),
            trim_back(v@.subrange(lo as int, n as int)) == trim_back(
                v@.subrange(lo as int, hi as int),
            ),
        decreases hi,
    {
        proof {
            let s = v@.subrange(lo as int, hi as int);
            assert(s.last() == v@[hi - 1]);
            assert(s.drop_last() =~= v@.subrange(lo as int, hi - 1));
        }
        hi = hi - 1;
    }
    proof {
        let s = v@.subrange(lo as int, hi as int);
        if hi > lo {
            assert(s.last() == v@[hi - 1]);
        }
        assert(trim_back(s) == s);
    }
    copy_range(v, lo, hi)
}

/// Whether two byte vectors hold the same bytes.
fn eq_bytes(a: &Vec<u8>, b: &Vec<u8>) -> (r: bool)
    ensures
        r == (a@ == b@),
{
    if a.len() != b.len() {
        return false;
    }
    let mut i: usize = 0;
    while i < a.len()
        invariant
            i <= a@.len(),
            a@.len() == b@.len(),
            forall|k: int| 0 <= k < i ==> a@[k] == b@[k],
        decreases a@.len() - i,
    {
        if a[i] != b[i] {
            return false;
        }
        i = i + 1;
    }
    proof {
        assert(a@ =~= b@);
    }
    true
}

/// `v` folded to ASCII lower case.
fn lower_vec(v: &Vec<u8>) -> (r: Vec<u8>)
    ensures
        r@ == lower_seq(v@),
{
    let mut r: Vec<u8> = Vec::new();
    let mut i: usize = 0;
    while i < v.len()
        invariant
            i <= v@.len(),
            r@ == lower_seq(v@.subrange(0, i as int)),
        decreases v@.len() - i,
    {
        let b = v[i];
        if b >= 65 && b <= 90 {
            r.push(b + 32);
        } else {
            r.push(b);
        }
        proof {
            assert(lower_seq(v@.subrange(0, i + 1)) =~= lower_seq(
                v@.subrange(0, i as int),
            ).push(to_lower(v@[i as int])));
        }
        i = i + 1;
    }
    proof {
        assert(v@.subrange(0, v@.len() as int) =~= v@);
    }
    r
}

/// The text split at line feeds.
fn split_lines(text: &Vec<u8>) -> (r: Vec<Vec<u8>>)
    ensures
        r@.map_values(|l: Vec<u8>| l@) == spec_lines(text@),
{
    let n = text.len();
    let mut out: Vec<Vec<u8>> = Vec::new();
    let mut cursor: usize = 0;
    proof {
        assert(text@.subrange(0, n as int) =~= text@);
        assert(out@.map_values(|l: Vec<u8>| l@) =~= Seq::<Seq<u8>>::empty());
    }
    loop
        invariant_except_break
            spec_lines(text@) == out@.map_values(|l: Vec<u8>| l@) + spec_lines(
                text@.subrange(cursor as int, n as int),
            ),
        invariant
            cursor <= n,
            n == text@.len(),
        ensures
            out@.map_values(|l: Vec<u8>| l@) == spec_lines(text@),
        decreases n - cursor,
    {
        let ghost rest = text@.subrange(cursor as int, n as int);
        let ghost done = out@.map_values(|l: Vec<u8>| l@);
        let mut j: usize = cursor;
        while j < n && text[j] != 10
            invariant
                cursor <= j <= n,
                n == text@.len(),
                forall|k: int| cursor <= k < j ==> text@[k] != 10,
            decreases n - j,
        {
            j = j + 1;
        }
        let line = copy_range(text, cursor, j);
        out.push(line);
        proof {
            lemma_first_at(rest, 10);
            assert(forall|k: int| 0 <= k < j - cursor ==> rest[k] == text@[k + cursor]);
            if j < n {
                assert(rest[j - cursor] == text@[j as int]);
                assert(first_at(rest, 10) == j - cursor);
                assert(rest.subrange(0, j - cursor) =~= text@.subrange(cursor as int, j as int));
                assert(rest.subrange(j - cursor + 1, rest.len() as int) =~= text@.subrange(
                    j + 1,
                    n as int,
                ));
                assert(spec_lines(rest) == seq![text@.subrange(cursor as int, j as int)]
                    + spec_lines(text@.subrange(j + 1, n as int)));
                assert(out@.map_values(|l: Vec<u8>| l@) =~= done.push(
                    text@.subrange(cursor as int, j as int),
                ));
                assert(done.push(text@.subrange(cursor as int, j as int)) + spec_lines(
                    text@.subrange(j + 1, n as int),
                ) =~= done + (seq![text@.subrange(cursor as int, j as int)] + spec_lines(
                    text@.subrange(j + 1, n as int),
                )));
            } else {
                assert(first_at(rest, 10) == -1);
                assert(spec_lines(rest) == seq![rest]);
                assert(rest =~= text@.subrange(cursor as int, j as int));
                assert(out@.map_values(|l: Vec<u8>| l@) =~= done.push(rest));
                assert(done.push(rest) =~= done + seq![rest]);
                assert(out@.map_values(|l: Vec<u8>| l@) == spec_lines(text@));
            }
        }
        if j < n {
            cursor = j + 1;
        } else {
            break;
        }
    }
    out
}

// ---------------------------------------------------------------------------
// Name vectors
// ---------------------------------------------------------------------------

/// The bytes of `"problems"`.
fn vec_problems() -> (r: Vec<u8>)
    ensures
        r@ == name_problems(),
{
    let mut v: Vec<u8> = Vec::new();
    v.push(112);
    v.push(114);
    v.push(111);
    v.push(98);
    v.push(108);
    v.push(101);
    v.push(109);
    v.push(115);
    proof {
        assert(v@ =~= name_problems());
    }
    v
}

/// The bytes of `"solutions"`.
fn vec_solutions() -> (r: Vec<u8>)
    ensures
        r@ == name_solutions(),
{
    let mut v: Vec<u8> = Vec::new();
    v.push(115);
    v.push(111);
    v.push(108);
    v.push(117);
    v.push(116);
    v.push(105);
    v.push(111);
    v.push(110);
    v.push(115);
    proof {
        assert(v@ =~= name_solutions());
    }
    v
}

/// The bytes of `"log"`.
fn vec_log() -> (r: Vec<u8>)
    ensures
        r@ == name_log(),
{
    let mut v: Vec<u8> = Vec::new();
    v.push(108);
    v.push(111);
    v.push(103);
    proof {
        assert(v@ =~= name_log());
    }
    v
}

/// The bytes of `"dir"`.
fn vec_dir() -> (r: Vec<u8>)
    ensures
        r@ == name_dir(),
{
    let mut v: Vec<u8> = Vec::new();
    v.push(100);
    v.push(105);
    v.push(114);
    proof {
        assert(v@ =~= name_dir());
    }
    v
}

/// The bytes of `"level"`.
fn vec_level() -> (r: Vec<u8>)
    ensures
        r@ == name_level(),
{
    let mut v: Vec<u8> = Vec::new();
    v.push(108);
    v.push(101);
    v.push(118);
    v.push(101);
    v.push(108);
    proof {
        assert(v@ =~= name_level());
    }
    v
}

/// The bytes of `"output"`.
fn vec_output() -> (r: Vec<u8>)
    ensures
        r@ == name_output(),
{
    let mut v: Vec<u8> = Vec::new();
    v.push(111);
    v.push(117);
    v.push(116);
    v.push(112);
    v.push(117);
    v.push(116);
    proof {
        assert(v@ =~= name_output());
    }
    v
}

/// The bytes of `"file"`.
fn vec_file() -> (r: Vec<u8>)
    ensures
        r@ == name_file(),
{
    let mut v: Vec<u8> = Vec::new();
    v.push(102);
    v.push(105);
    v.push(108);
    v.push(101);
    proof {
        assert(v@ =~= name_file());
    }
    v
}

/// The bytes of `"stdout"`.
fn vec_stdout() -> (r: Vec<u8>)
    ensures
        r@ == name_stdout(),
{
    let mut v: Vec<u8> = Vec::new();
    v.push(115);
    v.push(116);
    v.push(100);
    v.push(111);
    v.push(117);
    v.push(116);
    proof {
        assert(v@ =~= name_stdout());
    }
    v
}

/// The bytes of `"off"`.
fn vec_off() -> (r: Vec<u8>)
    ensures
        r@ == name_off(),
{
    let mut v: Vec<u8> = Vec::new();
    v.push(111);
    v.push(102);
    v.push(102);
    proof {
        assert(v@ =~= name_off());
    }
    v
}

/// The bytes of `"error"`.
fn vec_error() -> (r: Vec<u8>)
    ensures
        r@ == name_error(),
{
    let mut v: Vec<u8> = Vec::new();
    v.push(101);
    v.push(114);
    v.push(114);
    v.push(111);
    v.push(114);
    proof {
        assert(v@ =~= name_error());
    }
    v
}

/// The bytes of `"warn"`.
fn vec_warn() -> (r: Vec<u8>)
    ensures
        r@ == name_warn(),
{
    let mut v: Vec<u8> = Vec::new();
    v.push(119);
    v.push(97);
    v.push(114);
    v.push(110);
    proof {
        assert(v@ =~= name_warn());
    }
    v
}

/// The bytes of `"info"`.
fn vec_info() -> (r: Vec<u8>)
    ensures
        r@ == name_info(),
{
    let mut v: Vec<u8> = Vec::new();
    v.push(105);
    v.push(110);
    v.push(102);
    v.push(111);
    proof {
        assert(v@ =~= name_info());
    }
    v
}

/// The bytes of `"debug"`.
fn vec_debug() -> (r: Vec<u8>)
    ensures
        r@ == name_debug(),
{
    let mut v: Vec<u8> = Vec::new();
    v.push(100);
    v.push(101);
    v.push(98);
    v.push(117);
    v.push(103);
    proof {
        assert(v@ =~= name_debug());
    }
    v
}

/// The bytes of `"trace"`.
fn vec_trace() -> (r: Vec<u8>)
    ensures
        r@ == name_trace(),
{
    let mut v: Vec<u8> = Vec::new();
    v.push(116);
    v.push(114);
    v.push(97);
    v.push(99);
    v.push(101);
    proof {
        assert(v@ =~= name_trace());
    }
    v
}

// ---------------------------------------------------------------------------
// Classifiers
// ---------------------------------------------------------------------------

/// The section a header name selects.
fn section_from(name: &Vec<u8>) -> (r: Section)
    ensures
        r == section_of(name@),
{
    if eq_bytes(name, &vec_problems()) {
        Section::Problems
    } else if eq_bytes(name, &vec_solutions()) {
        Section::Solutions
    } else if eq_bytes(name, &vec_log()) {
        Section::Log
    } else {
        Section::Other
    }
}

/// The severity filter a name selects, if any.
fn level_from(s: &Vec<u8>) -> (r: Option<LevelFilter>)
    ensures
        r == level_of(s@),
{
    let l = lower_vec(s);
    if eq_bytes(&l, &vec_off()) {
        Some(LevelFilter::Off)
    } else if eq_bytes(&l, &vec_error()) {
        Some(LevelFilter::Error)
    } else if eq_bytes(&l, &vec_warn()) {
        Some(LevelFilter::Warn)
    } else if eq_bytes(&l, &vec_info()) {
        Some(LevelFilter::Info)
    } else if eq_bytes(&l, &vec_debug()) {
        Some(LevelFilter::Debug)
    } else if eq_bytes(&l, &vec_trace()) {
        Some(LevelFilter::Trace)
    } else {
        None
    }
}

// ---------------------------------------------------------------------------
// The value and line parsers
// ---------------------------------------------------------------------------

/// A parsed value, holding its bytes.
pub enum ValueX {
    Str(Vec<u8>),
    Table(Vec<u8>, Vec<u8>),
}

impl View for ValueX {
    type V = ValueItem;

    open spec fn view(&self) -> ValueItem {
        match self {
            ValueX::Str(s) => ValueItem::Str(s@),
            ValueX::Table(k, s) => ValueItem::Table(k@, s@),
        }
    }
}

/// A quoted string, without its quotes.
fn parse_quoted_x(v: &Vec<u8>) -> (r: Option<Vec<u8>>)
    ensures
        r matches Some(s) ==> parse_quoted(v@) == Some(s@),
        r is None ==> parse_quoted(v@) is None,
{
    if v.len() >= 2 && v[0] == 34 && v[v.len() - 1] == 34 {
        let inner = copy_range(v, 1, v.len() - 1);
        if find_byte(&inner, 34).is_none() && find_byte(&inner, 92).is_none() {
            Some(inner)
        } else {
            None
        }
    } else {
        None
    }
}

/// A value: a quoted string, or the inline table `{ key = "..." }`.
fn parse_value_x(v: &Vec<u8>) -> (r: Option<ValueX>)
    ensures
        r matches Some(vx) ==> parse_value(v@) == Some(vx@),
        r is None ==> parse_value(v@) is None,
{
    if v.len() > 0 && v[0] == 34 {
        match parse_quoted_x(v) {
            Some(s) => Some(ValueX::Str(s)),
            None => None,
        }
    } else if v.len() >= 2 && v[0] == 123 && v[v.len() - 1] == 125 {
        let inner = trim_vec(&copy_range(v, 1, v.len() - 1));
        let inner_len = inner.len();
        match find_byte(&inner, 61) {
            None => None,
            Some(e) => {
                if e == 0 {
                    None
                } else {
                    assert(e < inner_len);
                    let k = trim_vec(&copy_range(&inner, 0, e));
                    let w = trim_vec(&copy_range(&inner, e + 1, inner_len));
                    match parse_quoted_x(&w) {
                        Some(s) => Some(ValueX::Table(k, s)),
                        None => None,
                    }
                }
            },
        }
    } else {
        None
    }
}

// ---------------------------------------------------------------------------
// The scanner
// ---------------------------------------------------------------------------

/// Scanner state while walking the lines.
struct ParserState {
    section: Section,
    problems_dir: Option<Vec<u8>>,
    solutions_dir: Option<Vec<u8>>,
    level: Option<LevelFilter>,
    output: Option<LogOutput>,
}

impl View for ParserState {
    type V = StateModel;

    closed spec fn view(&self) -> StateModel {
        StateModel {
            section: self.section,
            problems_dir: match self.problems_dir {
                Some(v) => Some(v@),
                None => None,
            },
            solutions_dir: match self.solutions_dir {
                Some(v) => Some(v@),
                None => None,
            },
            level: self.level,
            output: match self.output {
                Some(o) => Some(o@),
                None => None,
            },
        }
    }
}

impl ParserState {
    fn new() -> (r: Self)
        ensures
            r@ == init_state(),
    {
        ParserState {
            section: Section::Preamble,
            problems_dir: None,
            solutions_dir: None,
            level: None,
            output: None,
        }
    }

    /// Scan one line, as `step_line` says.
    fn step(&mut self, line: &Vec<u8>) -> (r: Result<(), ConfigError>)
        ensures
            step_line(old(self)@, line@) matches Ok(m) ==> r is Ok && final(self)@ == m,
            step_line(old(self)@, line@) matches Err(e) ==> r == Result::<(), ConfigError>::Err(
                e,
            ),
    {
        let s = trim_vec(line);
        if s.len() == 0 {
            return Ok(());
        }
        if s[0] == 35 {
            return Ok(());
        }
        if s[0] == 91 {
            if s.len() >= 2 && s[s.len() - 1] == 93 {
                let name = trim_vec(&copy_range(&s, 1, s.len() - 1));
                if name.len() > 0 && find_byte(&name, 91).is_none() && find_byte(
                    &name,
                    93,
                ).is_none() {
                    self.section = section_from(&name);
                    return Ok(());
                }
            }
            return Err(ConfigError::InvalidLine);
        }
        let e = match find_byte(&s, 61) {
            None => {
                return Err(ConfigError::InvalidLine);
            },
            Some(e) => e,
        };
        if e == 0 {
            return Err(ConfigError::InvalidLine);
        }
        let k = trim_vec(&copy_range(&s, 0, e));
        let v = trim_vec(&copy_range(&s, e + 1, s.len()));
        if k.len() == 0 {
            return Err(ConfigError::InvalidLine);
        }
        let vx = match parse_value_x(&v) {
            None => {
                return Err(ConfigError::InvalidLine);
            },
            Some(vx) => vx,
        };
        match self.section {
            Section::Problems => {
                if eq_bytes(&k, &vec_dir()) {
                    match vx {
                        ValueX::Str(sv) => {
                            self.problems_dir = Some(sv);
                            Ok(())
                        },
                        ValueX::Table(_, _) => Err(ConfigError::InvalidLine),
                    }
                } else {
                    Ok(())
                }
            },
            Section::Solutions => {
                if eq_bytes(&k, &vec_dir()) {
                    match vx {
                        ValueX::Str(sv) => {
                            self.solutions_dir = Some(sv);
                            Ok(())
                        },
                        ValueX::Table(_, _) => Err(ConfigError::InvalidLine),
                    }
                } else {
                    Ok(())
                }
            },
            Section::Log => {
                if eq_bytes(&k, &vec_level()) {
                    match vx {
                        ValueX::Str(sv) => match level_from(&sv) {
                            Some(lf) => {
                                self.level = Some(lf);
                                Ok(())
                            },
                            None => Err(ConfigError::InvalidLevel),
                        },
                        ValueX::Table(_, _) => Err(ConfigError::InvalidLevel),
                    }
                } else if eq_bytes(&k, &vec_output()) {
                    match vx {
                        ValueX::Str(sv) => {
                            if eq_bytes(&sv, &vec_stdout()) {
                                self.output = Some(LogOutput::StdOut);
                                Ok(())
                            } else {
                                Err(ConfigError::InvalidOutput)
                            }
                        },
                        ValueX::Table(tk, sv) => {
                            if eq_bytes(&tk, &vec_file()) {
                                self.output = Some(LogOutput::File(sv));
                                Ok(())
                            } else {
                                Err(ConfigError::InvalidOutput)
                            }
                        },
                    }
                } else {
                    Ok(())
                }
            },
            Section::Preamble => Ok(()),
            Section::Other => Ok(()),
        }
    }

    /// The configuration this state denotes, once every line is scanned.
    fn finish(self) -> (r: Result<Solver, ConfigError>)
        ensures
            finish_state(self@) matches Ok(m) ==> (r matches Ok(c) && c@ == m),
            finish_state(self@) matches Err(e) ==> r == Result::<Solver, ConfigError>::Err(e),
    {
        let ParserState { section: _, problems_dir, solutions_dir, level, output } = self;
        match (problems_dir, solutions_dir, level, output) {
            (Some(p), Some(s), Some(lv), Some(o)) => Ok(
                Solver {
                    problems: Directory { dir: p },
                    solutions: Directory { dir: s },
                    log: Log { level: lv, output: o },
                },
            ),
            _ => Err(ConfigError::MissingField),
        }
    }
}

impl Solver {
    /// Parse the contents of a configuration file, exactly as the grammar
    /// [`parse_config`] reads it.
    pub fn from_file(text: &Vec<u8>) -> (r: Result<Solver, ConfigError>)
        ensures
            parse_config(text@) matches Ok(m) ==> (r matches Ok(c) && c@ == m),
            parse_config(text@) matches Err(e) ==> r == Result::<Solver, ConfigError>::Err(e),
    {
        let lines = split_lines(text);
        let ghost lmodel = lines@.map_values(|l: Vec<u8>| l@);
        let mut st = ParserState::new();
        proof {
            assert(lmodel.skip(0) =~= lmodel);
        }
        let mut i: usize = 0;
        while i < lines.len()
            invariant
                i <= lines@.len(),
                lmodel == lines@.map_values(|l: Vec<u8>| l@),
                spec_lines(text@) == lmodel,
                scan(lmodel, init_state()) == scan(lmodel.skip(i as int), st@),
            decreases lines@.len() - i,
        {
            let ghost pre = st@;
            let line = &lines[i];
            proof {
                assert(lmodel.skip(i as int).len() > 0);
                assert(lmodel.skip(i as int)[0] == lmodel[i as int]);
                assert(lmodel[i as int] == line@);
            }
            match st.step(line) {
                Ok(_) => {
                    proof {
                        assert(step_line(pre, lmodel[i as int]) == Ok::<StateModel, ConfigError>(
                            st@,
                        ));
                        assert(lmodel.skip(i as int).drop_first() =~= lmodel.skip(i + 1));
                    }
                    i = i + 1;
                },
                Err(err) => {
                    proof {
                        assert(step_line(pre, lmodel[i as int]) == Err::<StateModel, ConfigError>(
                            err,
                        ));
                        assert(scan(lmodel.skip(i as int), pre) == Err::<StateModel, ConfigError>(
                            err,
                        ));
                    }
                    return Err(err);
                },
            }
        }
        proof {
            assert(lmodel.skip(i as int) =~= Seq::<Seq<u8>>::empty());
            assert(scan(lmodel, init_state()) == Ok::<StateModel, ConfigError>(st@));
        }
        st.finish()
    }
}

} // verus!
