//! Command line options and the rules that select which tests run.

use vstd::prelude::*;
use vstd::string::*;

use crate::reporter::ReporterOutput;
use crate::status::MismatchReason;
use crate::trial::TestInfo;

verus! {

/// Command line arguments, as plain values.
///
/// The options mirror those of the standard test harness: filters, skip
/// patterns, the treatment of ignored tests, and output settings.
#[derive(Debug, Clone, Default)]
pub struct Arguments {
    /// Run ignored and non-ignored tests.
    pub include_ignored: bool,
    /// Run only ignored tests.
    pub ignored: bool,
    /// Run tests, but not benchmarks.
    pub test: bool,
    /// Run benchmarks, but not tests.
    pub bench: bool,
    /// Only list all tests.
    pub list: bool,
    /// No-op: output is never captured.
    pub nocapture: bool,
    /// Match filters exactly rather than by substring.
    pub exact: bool,
    /// Display one character per test instead of one line.
    pub quiet: bool,
    /// Number of threads used for running tests.
    pub test_threads: Option<usize>,
    /// Number of tests that may run at the same time.
    pub test_tasks: Option<usize>,
    /// Path of the log file that receives the output instead of the terminal.
    pub logfile: Option<String>,
    /// Tests whose names contain (or equal, with `exact`) one of these are skipped.
    pub skip: Vec<String>,
    /// Whether to color the output.
    pub color: Option<ColorSetting>,
    /// The format of the output.
    pub format: Option<FormatSetting>,
    /// Only tests whose names contain (or equal, with `exact`) one of these run.
    pub filter: Vec<String>,
}

/// Possible values for the `--color` option.
#[derive(Debug, Clone, Copy, PartialEq, Eq, Structural, Default)]
pub enum ColorSetting {
    /// Colorize output if the output stream supports it.
    #[default]
    Auto,
    /// Always colorize output.
    Always,
    /// Never colorize output.
    Never,
}

/// Possible values for the `--format` option.
#[derive(Debug, Clone, Copy, PartialEq, Eq, Structural, Default)]
pub enum FormatSetting {
    /// One line per test.
    #[default]
    Pretty,
    /// One character per test.
    Terse,
}

/// `pat` occurs in `s` as a contiguous run of characters.
pub open spec fn is_substring(pat: Seq<char>, s: Seq<char>) -> bool {
    exists|i: int| 0 <= i <= s.len() - pat.len() && #[trigger] s.subrange(i, i + pat.len()) == pat
}

/// A test name matches a filter pattern: by equality when `exact`, else by
/// containment.
pub open spec fn name_matches(name: Seq<char>, pat: Seq<char>, exact: bool) -> bool {
    if exact {
        name == pat
    } else {
        is_substring(pat, name)
    }
}

/// The name matches at least one of the patterns.
pub open spec fn matches_any(name: Seq<char>, pats: Seq<String>, exact: bool) -> bool {
    exists|j: int| 0 <= j < pats.len() && name_matches(name, #[trigger] pats[j]@, exact)
}

/// `pat` occurs in `s` at position `at`.
fn occurs_at(s: &str, pat: &str, at: usize, s_len: usize, pat_len: usize) -> (r: bool)
    requires
        s_len == s@.len(),
        pat_len == pat@.len(),
        at + pat_len <= s_len,
    ensures
        r == (s@.subrange(at as int, at + pat_len) == pat@),
{
    let mut k: usize = 0;
    while k < pat_len
        invariant
            s_len == s@.len(),
            pat_len == pat@.len(),
            at + pat_len <= s_len,
            k <= pat_len,
            forall|m: int| 0 <= m < k ==> s@[at + m] == pat@[m],
        decreases pat_len - k,
    {
        if s.get_char(at + k) != pat.get_char(k) {
            assert(s@.subrange(at as int, at + pat_len)[k as int] != pat@[k as int]);
            return false;
        }
        k += 1;
    }
    assert(s@.subrange(at as int, at + pat_len) =~= pat@);
    true
}

/// Whether `name` matches the pattern `pat`: equal to it when `exact`,
/// containing it otherwise.
pub fn name_matches_exec(name: &str, pat: &str, exact: bool) -> (r: bool)
    ensures
        r == name_matches(name@, pat@, exact),
{
    let n = name.unicode_len();
    let p = pat.unicode_len();
    if exact {
        if n != p {
            return false;
        }
        let r = occurs_at(name, pat, 0, n, p);
        assert(name@.subrange(0, n as int) =~= name@);
        return r;
    }
    if p > n {
        return false;
    }
    let last = n - p;
    let mut i: usize = 0;
    loop
        invariant
            n == name@.len(),
            p == pat@.len(),
            last == n - p,
            !exact,
            i <= last,
            forall|j: int| 0 <= j < i ==> #[trigger] name@.subrange(j, j + p) != pat@,
        decreases last - i,
    {
        if occurs_at(name, pat, i, n, p) {
            assert(name@.subrange(i as int, i + p) == pat@);
            assert(is_substring(pat@, name@));
            return true;
        }
        if i == last {
            assert(forall|j: int| 0 <= j <= last ==> #[trigger] name@.subrange(j, j + p) != pat@);
            return false;
        }
        i += 1;
    }
}

/// Whether some pattern of `pats` matches `name`.
fn matches_any_exec(name: &str, pats: &Vec<String>, exact: bool) -> (r: bool)
    ensures
        r == matches_any(name@, pats@, exact),
{
    let mut j: usize = 0;
    while j < pats.len()
        invariant
            j <= pats@.len(),
            forall|m: int| 0 <= m < j ==> !name_matches(name@, #[trigger] pats@[m]@, exact),
        decreases pats@.len() - j,
    {
        if name_matches_exec(name, pats[j].as_str(), exact) {
            assert(name_matches(name@, pats@[j as int]@, exact));
            return true;
        }
        j += 1;
    }
    false
}

/// Why the string options leave out a test with this name, if they do: a
/// positive filter that it fails, or a skip pattern that it matches.
pub open spec fn name_reason(args: Arguments, name: Seq<char>) -> Option<MismatchReason> {
    if args.filter@.len() > 0 && !matches_any(name, args.filter@, args.exact) {
        Some(MismatchReason::String)
    } else if matches_any(name, args.skip@, args.exact) {
        Some(MismatchReason::String)
    } else {
        None
    }
}

/// A test marked ignored is held back unless ignored tests are asked for.
pub open spec fn held_back(args: Arguments, is_ignored: bool) -> bool {
    is_ignored && !args.ignored && !args.include_ignored
}

/// Why the options leave out a test with this name and ignored flag, if
/// they do: the string options; or the ignored mark, when only ignored tests
/// run and the test lacks it, or when the test has it and ignored tests were
/// not asked for.
pub open spec fn filter_reason(args: Arguments, name: Seq<char>, is_ignored: bool) -> Option<
    MismatchReason,
> {
    if name_reason(args, name) is Some {
        name_reason(args, name)
    } else if args.ignored && !is_ignored {
        Some(MismatchReason::Ignored)
    } else if held_back(args, is_ignored) {
        Some(MismatchReason::Ignored)
    } else {
        None
    }
}

/// The test runs under these options.
pub open spec fn selected(args: Arguments, name: Seq<char>, is_ignored: bool) -> bool {
    filter_reason(args, name, is_ignored) is None
}

/// The test passes the string options but is held back as ignored: it is
/// counted as ignored rather than as filtered out.
pub open spec fn counts_as_ignored(args: Arguments, t: TestInfo) -> bool {
    name_reason(args, t.name@) is None && held_back(args, t.is_ignored)
}

/// The number of tests of `s` that the options filter out, those held back
/// as ignored aside.
pub open spec fn count_filtered_out(args: Arguments, s: Seq<TestInfo>) -> nat
    decreases s.len(),
{
    if s.len() == 0 {
        0
    } else {
        count_filtered_out(args, s.drop_last()) + if filter_reason(
            args,
            s.last().name@,
            s.last().is_ignored,
        ) is Some && !counts_as_ignored(args, s.last()) {
            1nat
        } else {
            0nat
        }
    }
}

/// The number of tests of `s` that pass the string options but are held
/// back as ignored.
pub open spec fn count_held_back(args: Arguments, s: Seq<TestInfo>) -> nat
    decreases s.len(),
{
    if s.len() == 0 {
        0
    } else {
        count_held_back(args, s.drop_last()) + if counts_as_ignored(args, s.last()) {
            1nat
        } else {
            0nat
        }
    }
}

impl Arguments {
    /// Returns `true` if the given test is marked ignored and ignored tests
    /// were not asked for.
    pub fn is_ignored(&self, test: &TestInfo) -> (r: bool)
        ensures
            r == held_back(*self, test.is_ignored),
    {
        test.is_ignored && !self.ignored && !self.include_ignored
    }

    /// The number of threads that run tests: `--test-threads` if it is
    /// positive, else the parallelism of the machine.
    pub fn thread_count(&self, parallelism: usize) -> (r: usize)
        ensures
            r == match self.test_threads {
                Some(n) if n > 0 => n,
                _ => parallelism,
            },
    {
        match self.test_threads {
            Some(n) if n > 0 => n,
            _ => parallelism,
        }
    }

    /// The number of tests that may run at the same time: `--test-tasks` if
    /// it is positive, else the number of threads.
    pub fn task_budget(&self, parallelism: usize) -> (r: usize)
        ensures
            r == match self.test_tasks {
                Some(n) if n > 0 => n,
                _ => match self.test_threads {
                    Some(n) if n > 0 => n,
                    _ => parallelism,
                },
            },
    {
        match self.test_tasks {
            Some(n) if n > 0 => n,
            _ => self.thread_count(parallelism),
        }
    }

    /// Whether the output is colored: always, never, or, by default, when it
    /// goes to a terminal that supports colors rather than to a log file.
    pub fn colorize(&self, terminal_has_colors: bool) -> (r: bool)
        ensures
            r == match self.color {
                Some(ColorSetting::Always) => true,
                Some(ColorSetting::Never) => false,
                _ => self.logfile is None && terminal_has_colors,
            },
    {
        match self.color {
            Some(ColorSetting::Always) => true,
            Some(ColorSetting::Never) => false,
            _ => self.logfile.is_none() && terminal_has_colors,
        }
    }

    /// Where the reporter writes: the log file if one is given, else the
    /// terminal.
    pub fn reporter_output(&self) -> (r: ReporterOutput)
        ensures
            r == if self.logfile is Some {
                ReporterOutput::Buffer
            } else {
                ReporterOutput::Stderr
            },
    {
        if self.logfile.is_some() {
            ReporterOutput::Buffer
        } else {
            ReporterOutput::Stderr
        }
    }

    /// Whether the string options leave out a test with this name.
    pub fn name_filtered_out(&self, name: &str) -> (r: bool)
        ensures
            r == name_reason(*self, name@) is Some,
    {
        (self.filter.len() > 0 && !matches_any_exec(name, &self.filter, self.exact))
            || matches_any_exec(name, &self.skip, self.exact)
    }

    /// Returns why the options leave the given test out, if they do.
    pub fn is_filtered_out(&self, test: &TestInfo) -> (r: Option<MismatchReason>)
        ensures
            r == filter_reason(*self, test.name@, test.is_ignored),
    {
        if self.name_filtered_out(test.name.as_str()) {
            return Some(MismatchReason::String);
        }
        if self.ignored && !test.is_ignored {
            return Some(MismatchReason::Ignored);
        }
        if self.is_ignored(test) {
            return Some(MismatchReason::Ignored);
        }
        None
    }
}

/// Filtering composes: keeping the tests that a substring filter `x`
/// selects, then dropping those that a skip pattern `y` matches, selects
/// exactly the tests that match `x` and do not match `y`, and one set of
/// options with both patterns selects the same tests. For a test marked
/// ignored the string options decide the same way, and the ignored mark
/// then holds it back on its own.
pub proof fn lemma_filter_then_skip(
    by_filter: Arguments,
    by_skip: Arguments,
    both: Arguments,
    x: String,
    y: String,
    name: Seq<char>,
    is_ignored: bool,
)
    requires
        by_filter.filter@ == seq![x],
        by_filter.skip@.len() == 0,
        by_skip.filter@.len() == 0,
        by_skip.skip@ == seq![y],
        both.filter@ == seq![x],
        both.skip@ == seq![y],
        !by_filter.exact && !by_skip.exact && !both.exact,
        !by_filter.ignored && !by_skip.ignored && !both.ignored,
    ensures
        (name_reason(by_filter, name) is None && name_reason(by_skip, name) is None) == (
        is_substring(x@, name) && !is_substring(y@, name)),
        name_reason(both, name) is None == (is_substring(x@, name) && !is_substring(y@, name)),
        !is_ignored ==> (filter_reason(by_filter, name, is_ignored) is None && filter_reason(
            by_skip,
            name,
            is_ignored,
        ) is None) == (is_substring(x@, name) && !is_substring(y@, name)),
        !is_ignored ==> filter_reason(both, name, is_ignored) is None == (is_substring(x@, name)
            && !is_substring(y@, name)),
{
    assert(matches_any(name, seq![x], false) == is_substring(x@, name)) by {
        if is_substring(x@, name) {
            assert(name_matches(name, seq![x][0]@, false));
        }
    }
    assert(matches_any(name, seq![y], false) == is_substring(y@, name)) by {
        if is_substring(y@, name) {
            assert(name_matches(name, seq![y][0]@, false));
        }
    }
}

/// Filtering is idempotent: selecting the tests of a list with the same
/// options twice gives what selecting once gives.
pub proof fn lemma_selection_idempotent(args: Arguments, tests: Seq<TestInfo>)
    ensures
        tests.filter(|t: TestInfo| selected(args, t.name@, t.is_ignored)).filter(
            |t: TestInfo| selected(args, t.name@, t.is_ignored),
        ) == tests.filter(|t: TestInfo| selected(args, t.name@, t.is_ignored)),
    decreases tests.len(),
{
    let p = |t: TestInfo| selected(args, t.name@, t.is_ignored);
    if tests.len() > 0 {
        let rest = tests.drop_last();
        lemma_selection_idempotent(args, rest);
        assert(tests == rest.push(tests.last()));
        rest.lemma_filter_push(tests.last(), p);
        rest.filter(p).lemma_filter_push(tests.last(), p);
    } else {
        reveal(Seq::filter);
    }
}

/// Exact matching selects a strict subset of what substring matching
/// selects: every name equal to a non-empty pattern contains it, and the
/// pattern followed by one more character contains it without being equal.
pub proof fn lemma_exact_within_substring(name: Seq<char>, pat: Seq<char>)
    requires
        pat.len() > 0,
    ensures
        name_matches(name, pat, true) ==> name_matches(name, pat, false),
        name_matches(pat.push('_'), pat, false),
        !name_matches(pat.push('_'), pat, true),
{
    let i: int = 0;
    if name == pat {
        assert(name.subrange(i, i + pat.len()) =~= pat);
    }
    assert(pat.push('_').subrange(i, i + pat.len()) =~= pat);
    assert(pat.push('_').len() != pat.len());
}

} // verus!
