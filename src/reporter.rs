//! Turns the events of a run into console output.

use vstd::prelude::*;
use vstd::multiset::Multiset;
use vstd::string::*;

use crate::event::TestEvent;
use crate::status::{
    ExecuteStatus, ExecutionResult, MismatchReason, RunStats, TestInstance,
    TestList,
};
use crate::style::{paint, painted, ListStyles, Styles, TextStyle};
use crate::text::{
    decimal, decimal_string, pad_left, pad_right, push_padded_left, push_padded_right, seconds,
    seconds_string,
};

verus! {

/// When to display test output in the reporter.
#[derive(Copy, Clone, Debug, Eq, PartialEq, Structural)]
pub enum TestOutputDisplay {
    /// Show output immediately on execution completion.
    Immediate,
    /// Show output immediately, and at the end of a test run.
    ImmediateFinal,
    /// Show output at the end of execution.
    Final,
    /// Never show output.
    Never,
}

impl TestOutputDisplay {
    /// Returns true if test output is shown immediately.
    pub fn is_immediate(self) -> (r: bool)
        ensures
            r == (self == TestOutputDisplay::Immediate || self == TestOutputDisplay::ImmediateFinal),
    {
        match self {
            TestOutputDisplay::Immediate | TestOutputDisplay::ImmediateFinal => true,
            TestOutputDisplay::Final | TestOutputDisplay::Never => false,
        }
    }

    /// Returns true if test output is shown at the end of the run.
    pub fn is_final(self) -> (r: bool)
        ensures
            r == (self == TestOutputDisplay::Final || self == TestOutputDisplay::ImmediateFinal),
    {
        match self {
            TestOutputDisplay::Final | TestOutputDisplay::ImmediateFinal => true,
            TestOutputDisplay::Immediate | TestOutputDisplay::Never => false,
        }
    }
}

/// Status level to show in the reporter output.
///
/// Levels are incremental: each one shows what the levels before it show.
#[derive(Copy, Clone, Debug, Eq, Ord, PartialEq, PartialOrd, Structural)]
#[non_exhaustive]
pub enum StatusLevel {
    /// No output.
    Off,
    /// Only output test failures.
    Fail,
    /// Output slow tests too.
    Slow,
    /// Output passing tests too.
    Pass,
    /// Output skipped tests too.
    Skip,
    /// Same as `Skip`.
    All,
}

impl StatusLevel {
    /// The position of the level in the order of levels.
    pub open spec fn spec_rank(self) -> u8 {
        match self {
            StatusLevel::Off => 0,
            StatusLevel::Fail => 1,
            StatusLevel::Slow => 2,
            StatusLevel::Pass => 3,
            StatusLevel::Skip => 4,
            StatusLevel::All => 5,
        }
    }

    /// The position of the level in the order of levels.
    #[verifier::when_used_as_spec(spec_rank)]
    pub fn rank(self) -> (r: u8)
        ensures
            r == self.spec_rank(),
    {
        match self {
            StatusLevel::Off => 0,
            StatusLevel::Fail => 1,
            StatusLevel::Slow => 2,
            StatusLevel::Pass => 3,
            StatusLevel::Skip => 4,
            StatusLevel::All => 5,
        }
    }
}

/// Status level to show at the end of a run.
///
/// Unlike [`StatusLevel`], skipped tests come before passing ones.
#[derive(Copy, Clone, Debug, Eq, Ord, PartialEq, PartialOrd, Structural)]
#[non_exhaustive]
pub enum FinalStatusLevel {
    /// No output.
    Off,
    /// Only output test failures.
    Fail,
    /// Output slow tests too.
    Slow,
    /// Output skipped tests too.
    Skip,
    /// Output passing tests too.
    Pass,
    /// Same as `Pass`.
    All,
}

impl FinalStatusLevel {
    /// The position of the level in the order of levels.
    pub open spec fn spec_rank(self) -> u8 {
        match self {
            FinalStatusLevel::Off => 0,
            FinalStatusLevel::Fail => 1,
            FinalStatusLevel::Slow => 2,
            FinalStatusLevel::Skip => 3,
            FinalStatusLevel::Pass => 4,
            FinalStatusLevel::All => 5,
        }
    }

    /// The position of the level in the order of levels.
    #[verifier::when_used_as_spec(spec_rank)]
    pub fn rank(self) -> (r: u8)
        ensures
            r == self.spec_rank(),
    {
        match self {
            FinalStatusLevel::Off => 0,
            FinalStatusLevel::Fail => 1,
            FinalStatusLevel::Slow => 2,
            FinalStatusLevel::Skip => 3,
            FinalStatusLevel::Pass => 4,
            FinalStatusLevel::All => 5,
        }
    }
}

/// The reason why a run is being canceled.
#[derive(Copy, Clone, Debug, Eq, PartialEq, Ord, PartialOrd, Structural)]
pub enum CancelReason {
    /// A termination signal was received.
    Signal,
}

/// The label of a result, at most twelve characters.
pub open spec fn status_text(result: ExecutionResult) -> Seq<char> {
    match result {
        ExecutionResult::Fail => "FAIL"@,
        ExecutionResult::Pass => "PASS"@,
        ExecutionResult::Timeout => "TIMEOUT"@,
    }
}

/// The label of a result.
pub fn status_str(result: ExecutionResult) -> (r: &'static str)
    ensures
        r@ == status_text(result),
{
    match result {
        ExecutionResult::Fail => "FAIL",
        ExecutionResult::Pass => "PASS",
        ExecutionResult::Timeout => "TIMEOUT",
    }
}

/// Appends `text` in style `st`.
fn push_painted(out: &mut String, text: &str, st: TextStyle)
    ensures
        final(out)@ == old(out)@ + painted(text@, st),
{
    let p = paint(text, st);
    out.append(p.as_str());
}

/// Appends `text` right-aligned in twelve characters, in style `st`.
fn push_label(out: &mut String, text: &str, st: TextStyle)
    ensures
        final(out)@ == old(out)@ + painted(pad_left(text@, 12), st),
{
    let mut padded = String::new();
    push_padded_left(&mut padded, text, 12);
    assert(padded@ =~= pad_left(text@, 12));
    push_painted(out, padded.as_str(), st);
}

/// Appends the decimal representation of `n` in style `st`.
fn push_count(out: &mut String, n: usize, st: TextStyle)
    ensures
        final(out)@ == old(out)@ + painted(decimal(n as nat), st),
{
    let d = decimal_string(n as u64);
    push_painted(out, d.as_str(), st);
}

/// The position of the last `::` that ends at or before position `q` of
/// `s`, if there is one.
pub open spec fn separator_before(s: Seq<char>, q: int) -> Option<int>
    decreases q,
{
    if q < 2 || q > s.len() {
        None
    } else if s[q - 2] == ':' && s[q - 1] == ':' {
        Some(q - 2)
    } else {
        separator_before(s, q - 1)
    }
}

/// The position of the last `::` in `s`, if there is one.
pub open spec fn last_separator(s: Seq<char>) -> Option<int> {
    separator_before(s, s.len() as int)
}

/// A test name, its module prefix (up to the last `::`) in the module
/// style and the rest in the test name style.
#[verifier::opaque]
pub open spec fn test_name_text(name: Seq<char>, ls: ListStyles) -> Seq<char> {
    match last_separator(name) {
        Some(p) => painted(name.subrange(0, p), ls.module_prefix) + painted("::"@, ls.module_prefix)
            + painted(name.subrange(p + 2, name.len() as int), ls.test_name),
        None => painted(name, ls.test_name),
    }
}

/// Finds the last `::` in `name`.
fn find_last_separator(name: &str) -> (r: Option<usize>)
    ensures
        r matches Some(p) ==> (last_separator(name@) == Some(p as int) && p + 2 <= name@.len()),
        r is None ==> last_separator(name@) is None,
{
    let n = name.unicode_len();
    let mut q: usize = n;
    while q >= 2
        invariant
            n == name@.len(),
            q <= n,
            last_separator(name@) == separator_before(name@, q as int),
        decreases q,
    {
        if name.get_char(q - 2) == ':' && name.get_char(q - 1) == ':' {
            return Some(q - 2);
        }
        q -= 1;
    }
    None
}

/// Appends a test name, its module prefix and its last part styled apart.
fn push_test_name(out: &mut String, name: &str, ls: ListStyles)
    ensures
        final(out)@ == old(out)@ + test_name_text(name@, ls),
{
    proof {
        reveal(test_name_text);
    }
    match find_last_separator(name) {
        Some(p) => {
            let n = name.unicode_len();
            let head = name.substring_char(0, p);
            let tail = name.substring_char(p + 2, n);
            let ghost start = out@;
            push_painted(out, head, ls.module_prefix);
            push_painted(out, "::", ls.module_prefix);
            push_painted(out, tail, ls.test_name);
            assert(out@ =~= start + (painted(head@, ls.module_prefix) + painted("::"@, ls.module_prefix) + painted(tail@, ls.test_name)));
        },
        None => {
            push_painted(out, name, ls.test_name);
        },
    }
}

/// A test as it appears on a status line: the suite label, then its name.
#[verifier::opaque]
pub open spec fn instance_text(name: Seq<char>, ls: ListStyles) -> Seq<char> {
    "test_suite "@ + test_name_text(name, ls)
}

/// Appends a test as it appears on a status line.
fn push_instance(out: &mut String, name: &str, ls: ListStyles)
    ensures
        final(out)@ == old(out)@ + instance_text(name@, ls),
{
    proof {
        reveal(instance_text);
    }
    let ghost start = out@;
    out.append("test_suite ");
    push_test_name(out, name, ls);
    assert(out@ =~= start + instance_text(name@, ls));
}

/// A duration in brackets, right-aligned: `[   0.034s] `.
#[verifier::opaque]
pub open spec fn duration_text(ms: nat) -> Seq<char> {
    "["@ + pad_left(seconds(ms), 8) + "s] "@
}

/// The elapsed time of a slow test: `[>  15.000s] `.
#[verifier::opaque]
pub open spec fn slow_duration_text(ms: nat) -> Seq<char> {
    "[>"@ + pad_left(seconds(ms), 7) + "s] "@
}

fn push_duration(out: &mut String, ms: u64, slow: bool)
    ensures
        final(out)@ == old(out)@ + if slow {
            slow_duration_text(ms as nat)
        } else {
            duration_text(ms as nat)
        },
{
    proof {
        reveal(duration_text);
        reveal(slow_duration_text);
    }
    let ghost start = out@;
    let secs = seconds_string(ms);
    if slow {
        out.append("[>");
        push_padded_left(out, secs.as_str(), 7);
    } else {
        out.append("[");
        push_padded_left(out, secs.as_str(), 8);
    }
    out.append("s] ");
    assert(out@ =~= start + if slow {
        slow_duration_text(ms as nat)
    } else {
        duration_text(ms as nat)
    });
}

/// `n` and its label, as the summary shows them.
#[verifier::opaque]
pub open spec fn count_text(n: usize, label: Seq<char>, count_style: TextStyle, label_style: TextStyle) -> Seq<char> {
    painted(decimal(n as nat), count_style) + " "@ + painted(label, label_style)
}

/// The number of slow tests among those passed, in parentheses, if any.
pub open spec fn slow_part(stats: RunStats, st: Styles) -> Seq<char> {
    if stats.passed_slow > 0 {
        " ("@ + count_text(stats.passed_slow, "slow"@, st.count, st.skip) + ")"@
    } else {
        Seq::empty()
    }
}

/// The number of failed tests, if any.
pub open spec fn failed_part(stats: RunStats, st: Styles) -> Seq<char> {
    if stats.failed > 0 {
        count_text(stats.failed, "failed"@, st.count, st.fail) + ", "@
    } else {
        Seq::empty()
    }
}

/// The number of timed out tests, if any.
pub open spec fn timed_out_part(stats: RunStats, st: Styles) -> Seq<char> {
    if stats.timed_out > 0 {
        count_text(stats.timed_out, "timed out"@, st.count, st.fail) + ", "@
    } else {
        Seq::empty()
    }
}

/// The counts of a run: passed (and slow among them), failed, timed out,
/// skipped.
#[verifier::opaque]
pub open spec fn summary_text(stats: RunStats, st: Styles) -> Seq<char> {
    count_text(stats.passed, "passed"@, st.count, st.pass) + slow_part(stats, st) + ", "@
        + failed_part(stats, st) + timed_out_part(stats, st) + count_text(
        stats.skipped,
        "skipped"@,
        st.count,
        st.skip,
    )
}

/// Appends `n` and its label.
fn push_count_text(out: &mut String, n: usize, label: &str, count_style: TextStyle, label_style: TextStyle)
    ensures
        final(out)@ == old(out)@ + count_text(n, label@, count_style, label_style),
{
    proof {
        reveal(count_text);
    }
    let ghost start = out@;
    push_count(out, n, count_style);
    out.append(" ");
    push_painted(out, label, label_style);
    assert(out@ =~= start + count_text(n, label@, count_style, label_style));
}

/// Appends the counts of a run.
pub fn write_summary_str(run_stats: &RunStats, styles: &Styles, out: &mut String)
    ensures
        final(out)@ == old(out)@ + summary_text(*run_stats, *styles),
{
    proof {
        reveal(summary_text);
    }
    let ghost start = out@;
    push_count_text(out, run_stats.passed, "passed", styles.count, styles.pass);
    let ghost a = out@;
    if run_stats.passed_slow > 0 {
        out.append(" (");
        push_count_text(out, run_stats.passed_slow, "slow", styles.count, styles.skip);
        out.append(")");
    }
    assert(out@ =~= a + slow_part(*run_stats, *styles));
    out.append(", ");
    let ghost c = out@;
    if run_stats.failed > 0 {
        push_count_text(out, run_stats.failed, "failed", styles.count, styles.fail);
        out.append(", ");
    }
    assert(out@ =~= c + failed_part(*run_stats, *styles));
    let ghost d = out@;
    if run_stats.timed_out > 0 {
        push_count_text(out, run_stats.timed_out, "timed out", styles.count, styles.fail);
        out.append(", ");
    }
    assert(out@ =~= d + timed_out_part(*run_stats, *styles));
    push_count_text(out, run_stats.skipped, "skipped", styles.count, styles.skip);
    assert(out@ =~= start + summary_text(*run_stats, *styles));
}

/// The message of the progress bar: the running tests, then the counts.
pub open spec fn progress_msg_text(stats: RunStats, running: usize, st: Styles) -> Seq<char> {
    painted(decimal(running as nat), st.count) + " running, "@ + summary_text(stats, st)
}

/// The message of the progress bar.
pub fn progress_bar_msg(current_stats: &RunStats, running: usize, styles: &Styles) -> (r: String)
    ensures
        r@ == progress_msg_text(*current_stats, running, *styles),
{
    let mut s = String::new();
    push_count(&mut s, running, styles.count);
    s.append(" running, ");
    write_summary_str(current_stats, styles, &mut s);
    assert(s@ =~= progress_msg_text(*current_stats, running, *styles));
    s
}

/// Whether a run goes on or is being canceled.
#[derive(Copy, Clone, Debug)]
pub enum RunningState {
    /// The run goes on, with these statistics.
    Running(RunStats),
    /// The run is being canceled.
    Canceling(CancelReason),
}

impl RunningState {
    /// The state of a run from its cancel state.
    pub fn new(cancel_state: Option<CancelReason>, current_stats: &RunStats) -> (r: RunningState)
        ensures
            cancel_state matches Some(c) ==> r == RunningState::Canceling(c),
            cancel_state is None ==> r == RunningState::Running(*current_stats),
    {
        match cancel_state {
            Some(c) => RunningState::Canceling(c),
            None => RunningState::Running(*current_stats),
        }
    }

    /// The prefix of the progress bar: `Running`, in the failure style once
    /// a test failed, or `Canceling`.
    pub fn progress_bar_prefix(self, styles: &Styles) -> (r: String)
        ensures
            r@ == match self {
                RunningState::Running(st) => painted(
                    pad_left("Running"@, 12),
                    if st.failed > 0 || st.timed_out > 0 {
                        styles.fail
                    } else {
                        styles.pass
                    },
                ),
                RunningState::Canceling(_) => painted(pad_left("Canceling"@, 12), styles.fail),
            },
    {
        let mut s = String::new();
        match self {
            RunningState::Running(st) => {
                let style = if st.any_failed() {
                    styles.fail
                } else {
                    styles.pass
                };
                push_label(&mut s, "Running", style);
            },
            RunningState::Canceling(_) => {
                push_label(&mut s, "Canceling", styles.fail);
            },
        }
        assert(s@ =~= match self {
            RunningState::Running(st) => painted(
                pad_left("Running"@, 12),
                if st.failed > 0 || st.timed_out > 0 {
                    styles.fail
                } else {
                    styles.pass
                },
            ),
            RunningState::Canceling(_) => painted(pad_left("Canceling"@, 12), styles.fail),
        });
        s
    }
}

/// `a` comes before `b` in the order of characters.
pub open spec fn lex_lt(a: Seq<char>, b: Seq<char>) -> bool
    decreases a.len(),
{
    if a.len() == 0 {
        b.len() > 0
    } else if b.len() == 0 {
        false
    } else if a[0] != b[0] {
        (a[0] as u32) < (b[0] as u32)
    } else {
        lex_lt(a.drop_first(), b.drop_first())
    }
}

proof fn lemma_lex_lt_transitive(a: Seq<char>, b: Seq<char>, c: Seq<char>)
    requires
        lex_lt(a, b),
        lex_lt(b, c),
    ensures
        lex_lt(a, c),
    decreases a.len(),
{
    if a.len() > 0 && b.len() > 0 && c.len() > 0 && a[0] == b[0] && b[0] == c[0] {
        lemma_lex_lt_transitive(a.drop_first(), b.drop_first(), c.drop_first());
    }
}

proof fn lemma_lex_lt_irreflexive(a: Seq<char>)
    ensures
        !lex_lt(a, a),
    decreases a.len(),
{
    if a.len() > 0 {
        lemma_lex_lt_irreflexive(a.drop_first());
    }
}

/// Whether `a` comes before `b` in the order of characters.
fn lex_less(a: &str, b: &str) -> (r: bool)
    ensures
        r == lex_lt(a@, b@),
{
    let n = a.unicode_len();
    let m = b.unicode_len();
    let mut i: usize = 0;
    assert(a@.subrange(0, n as int) =~= a@ && b@.subrange(0, m as int) =~= b@);
    while i < n && i < m
        invariant
            n == a@.len(),
            m == b@.len(),
            i <= n,
            i <= m,
            lex_lt(a@, b@) == lex_lt(a@.subrange(i as int, n as int), b@.subrange(i as int, m as int)),
        decreases n - i,
    {
        let x = a.get_char(i);
        let y = b.get_char(i);
        let ghost sa = a@.subrange(i as int, n as int);
        let ghost sb = b@.subrange(i as int, m as int);
        assert(sa[0] == x && sb[0] == y);
        if x != y {
            return (x as u32) < (y as u32);
        }
        assert(sa.drop_first() =~= a@.subrange(i + 1, n as int));
        assert(sb.drop_first() =~= b@.subrange(i + 1, m as int));
        i += 1;
    }
    let ghost sa = a@.subrange(i as int, n as int);
    let ghost sb = b@.subrange(i as int, m as int);
    assert(sa.len() == 0 || sb.len() == 0);
    i == n && i < m
}

/// What the end of the run shows of a test.
#[derive(Clone, Debug)]
pub enum FinalOutput {
    /// The test was skipped.
    Skipped(MismatchReason),
    /// The test ran.
    Executed {
        /// How it ran.
        run_status: ExecuteStatus,
        /// When to show its output.
        test_output_display: TestOutputDisplay,
    },
}

impl FinalOutput {
    /// The level at which the end of the run lists this test.
    pub open spec fn spec_final_status_level(&self) -> FinalStatusLevel {
        match self {
            FinalOutput::Skipped(_) => FinalStatusLevel::Skip,
            FinalOutput::Executed { run_status, .. } => if run_status.result != ExecutionResult::Pass {
                FinalStatusLevel::Fail
            } else if run_status.is_slow {
                FinalStatusLevel::Slow
            } else {
                FinalStatusLevel::Pass
            },
        }
    }

    /// The level at which the end of the run lists this test.
    pub fn final_status_level(&self) -> (r: FinalStatusLevel)
        ensures
            r == self.spec_final_status_level(),
    {
        match self {
            FinalOutput::Skipped(_) => FinalStatusLevel::Skip,
            FinalOutput::Executed { run_status, .. } => run_status.describe().final_status_level(),
        }
    }
}

/// The end of the run lists `a` before `b`: higher levels first, then by
/// name.
pub open spec fn listed_before(a: (TestInstance, FinalOutput), b: (TestInstance, FinalOutput)) -> bool {
    let ra = a.1.spec_final_status_level().spec_rank();
    let rb = b.1.spec_final_status_level().spec_rank();
    ra > rb || (ra == rb && lex_lt(a.0.name@, b.0.name@))
}

/// No entry of `s` is listed before an entry that precedes it.
pub open spec fn in_listing_order(s: Seq<(TestInstance, FinalOutput)>) -> bool {
    forall|i: int, j: int| 0 <= i < j < s.len() ==> !listed_before(#[trigger] s[j], #[trigger] s[i])
}

/// Adds `entry` to `list` at its place in the listing order.
fn insert_in_order(list: &mut Vec<(TestInstance, FinalOutput)>, entry: (TestInstance, FinalOutput))
    requires
        in_listing_order(old(list)@),
    ensures
        in_listing_order(final(list)@),
        final(list)@.to_multiset() == old(list)@.to_multiset().insert(entry),
{
    let level = entry.1.final_status_level().rank();
    let mut idx: usize = 0;
    while idx < list.len()
        invariant
            idx <= list@.len(),
            level == entry.1.spec_final_status_level().spec_rank(),
            forall|m: int| 0 <= m < idx ==> !listed_before(entry, #[trigger] list@[m]),
        ensures
            idx <= list@.len(),
            forall|m: int| 0 <= m < idx ==> !listed_before(entry, #[trigger] list@[m]),
            idx < list@.len() ==> listed_before(entry, list@[idx as int]),
        decreases list@.len() - idx,
    {
        let other = &list[idx];
        let other_level = other.1.final_status_level().rank();
        let before = level > other_level || (level == other_level && lex_less(
            entry.0.name.as_str(),
            other.0.name.as_str(),
        ));
        if before {
            break;
        }
        idx += 1;
    }
    let ghost old_list = list@;
    assert(idx < list@.len() ==> listed_before(entry, list@[idx as int]));
    list.insert(idx, entry);
    proof {
        let s = list@;
        old_list.insert_ensures(idx as int, entry);
        assert forall|i: int, j: int| 0 <= i < j < s.len() implies !listed_before(#[trigger] s[j], #[trigger] s[i]) by {
            if i < idx && j == idx {
            } else if i == idx && j > idx {
                if listed_before(s[j], s[i]) {
                    let e = s[j];
                    let f = old_list[idx as int];
                    assert(s[j] == old_list[j - 1]);
                    if j - 1 > idx {
                        assert(!listed_before(old_list[j - 1], old_list[idx as int]));
                    }
                    lemma_listed_before_transitive(e, entry, f);
                    lemma_lex_lt_irreflexive(f.0.name@);
                }
            } else if i < idx && j < idx {
                assert(s[i] == old_list[i] && s[j] == old_list[j]);
            } else if i < idx && j > idx {
                assert(s[i] == old_list[i] && s[j] == old_list[j - 1]);
            } else {
                assert(s[i] == old_list[i - 1] && s[j] == old_list[j - 1]);
            }
        }
        vstd::seq_lib::to_multiset_insert(old_list, idx as int, entry);
    }
}

proof fn lemma_listed_before_transitive(
    a: (TestInstance, FinalOutput),
    b: (TestInstance, FinalOutput),
    c: (TestInstance, FinalOutput),
)
    requires
        listed_before(a, b),
        listed_before(b, c),
    ensures
        listed_before(a, c),
{
    if lex_lt(a.0.name@, b.0.name@) && lex_lt(b.0.name@, c.0.name@) {
        lemma_lex_lt_transitive(a.0.name@, b.0.name@, c.0.name@);
    }
}

/// The first line of a run: the number of tests to run, and of those
/// skipped if any.
pub open spec fn run_started_text(run_count: nat, skip_count: nat, st: Styles) -> Seq<char> {
    painted(pad_left("Starting"@, 12), st.pass) + " "@ + painted(decimal(run_count), st.count) + " "@
        + (if run_count == 1 {
        "test"@
    } else {
        "tests"@
    }) + (if skip_count > 0 {
        " ("@ + painted(decimal(skip_count), st.count) + " skipped)"@
    } else {
        Seq::empty()
    }) + "\n"@
}

/// The line of a test that is slow, or about to be terminated.
pub open spec fn slow_text(
    name: Seq<char>,
    elapsed: nat,
    will_terminate: bool,
    level: StatusLevel,
    st: Styles,
) -> Seq<char> {
    (if !will_terminate && level.spec_rank() >= 2 {
        painted(pad_left("SLOW"@, 12), st.skip) + " "@
    } else if will_terminate {
        painted(pad_left("TERMINATING"@, 12), st.fail) + " "@
    } else {
        Seq::empty()
    }) + slow_duration_text(elapsed) + instance_text(name, st.list_styles) + "\n"@
}

/// The line of a skipped test.
pub open spec fn skip_line_text(name: Seq<char>, st: Styles) -> Seq<char> {
    painted(pad_left("SKIP"@, 12), st.skip) + " "@ + "[         ] "@ + instance_text(name, st.list_styles)
        + "\n"@
}

/// The line of a finished test: its result, its duration and its name. At
/// the end of the run (`at_end`), a slow passing test shows as slow.
pub open spec fn status_line_text(name: Seq<char>, status: ExecuteStatus, at_end: bool, st: Styles) -> Seq<char> {
    (if status.result == ExecutionResult::Pass {
        if at_end && status.is_slow {
            painted(pad_left("SLOW"@, 12), st.skip)
        } else {
            painted(pad_left("PASS"@, 12), st.pass)
        }
    } else {
        painted(pad_left(status_text(status.result), 12), st.fail)
    }) + " "@ + duration_text(status.time_taken as nat) + instance_text(name, st.list_styles) + "\n"@
}

/// The output block of a test: a header, the output (a failure's message),
/// and, when colorized, a color reset; then an empty line.
pub open spec fn output_block_text(name: Seq<char>, status: ExecuteStatus, st: Styles) -> Seq<char> {
    let hs = if status.result == ExecutionResult::Pass {
        st.pass
    } else {
        st.fail
    };
    (match status.output {
        Some(o) => "\n"@ + painted("--- "@, hs) + painted(pad_right("STDOUT:"@, 21), hs)
            + instance_text(name, st.list_styles) + painted(" ---"@, hs) + "\n"@ + o@ + if st.is_colorized {
            "\x1b[0m"@
        } else {
            Seq::empty()
        },
        None => Seq::empty(),
    }) + "\n"@
}

/// The display shows output at the end of the run.
pub open spec fn shows_final(d: TestOutputDisplay) -> bool {
    d == TestOutputDisplay::Final || d == TestOutputDisplay::ImmediateFinal
}

/// The display shows output as soon as the test finishes.
pub open spec fn shows_immediately(d: TestOutputDisplay) -> bool {
    d == TestOutputDisplay::Immediate || d == TestOutputDisplay::ImmediateFinal
}

/// What the end of a run shows of one listed test.
pub open spec fn entry_text(e: (TestInstance, FinalOutput), level: FinalStatusLevel, st: Styles) -> Seq<char> {
    match e.1 {
        FinalOutput::Skipped(_) => skip_line_text(e.0.name@, st),
        FinalOutput::Executed { run_status, test_output_display } => (if level.spec_rank()
            >= e.1.spec_final_status_level().spec_rank() || shows_final(test_output_display) {
            status_line_text(e.0.name@, run_status, true, st)
        } else {
            Seq::empty()
        }) + if shows_final(test_output_display) {
            output_block_text(e.0.name@, run_status, st)
        } else {
            Seq::empty()
        },
    }
}

/// What the end of a run shows of the listed tests, in order.
pub open spec fn listing_text(s: Seq<(TestInstance, FinalOutput)>, level: FinalStatusLevel, st: Styles) -> Seq<char>
    decreases s.len(),
{
    if s.len() == 0 {
        Seq::empty()
    } else {
        listing_text(s.drop_last(), level, st) + entry_text(s.last(), level, st)
    }
}

/// The summary line of a run: its duration, the finished tests (out of
/// those that were to run, if fewer finished), and the counts.
pub open spec fn summary_line_text(elapsed: nat, stats: RunStats, st: Styles) -> Seq<char> {
    "------------\n"@ + painted(
        pad_left("Summary"@, 12),
        if stats.failed > 0 || stats.timed_out > 0 {
            st.fail
        } else {
            st.pass
        },
    ) + " "@ + duration_text(elapsed) + painted(decimal(stats.finished_count as nat), st.count) + (
    if stats.finished_count != stats.initial_run_count {
        "/"@ + painted(decimal(stats.initial_run_count as nat), st.count)
    } else {
        Seq::empty()
    }) + (if stats.finished_count == 1 && stats.initial_run_count == 1 {
        " test run: "@
    } else {
        " tests run: "@
    }) + summary_text(stats, st) + "\n"@
}

/// The line that the standard harness prints for a finished test.
pub open spec fn cargo_line_text(name: Seq<char>, passed: bool) -> Seq<char> {
    "test "@ + name + " ... "@ + if passed {
        "ok"@
    } else {
        "FAILED"@
    } + "\n"@
}

/// Where the reporter sends its output.
#[derive(Copy, Clone, Debug, PartialEq, Eq, Structural)]
pub enum ReporterOutput {
    /// The terminal's standard error, with a progress bar when it is a
    /// terminal.
    Stderr,
    /// A buffer, such as a log file.
    Buffer,
}

/// How the reporter renders.
#[derive(Copy, Clone, Debug, PartialEq, Eq, Structural)]
pub enum ReporterMode {
    /// Status lines on standard error, under a progress bar.
    StderrWithBar,
    /// Status lines on standard error.
    StderrWithoutBar,
    /// The lines of the standard harness: one per test on standard output,
    /// failure messages on standard error.
    ImitateCargo,
    /// Status lines into a buffer.
    Buffer,
}

/// Test reporter builder.
#[derive(Debug)]
pub struct TestReporterBuilder {
    failure_output: Option<TestOutputDisplay>,
    success_output: Option<TestOutputDisplay>,
    status_level: Option<StatusLevel>,
    final_status_level: Option<FinalStatusLevel>,
    hide_progress_bar: bool,
    imitate_cargo: bool,
}

impl Default for TestReporterBuilder {
    fn default() -> (r: TestReporterBuilder)
        ensures
            r.spec_imitate_cargo() == false,
            r.spec_hide_progress_bar() == false,
            r.status_level_setting() is None,
            r.final_status_level_setting() is None,
            r.success_output_setting() is None,
            r.failure_output_setting() is None,
    {
        TestReporterBuilder {
            failure_output: None,
            success_output: None,
            status_level: None,
            final_status_level: None,
            hide_progress_bar: false,
            imitate_cargo: false,
        }
    }
}

impl TestReporterBuilder {
    /// Whether the reporter imitates the standard harness.
    pub closed spec fn spec_imitate_cargo(&self) -> bool {
        self.imitate_cargo
    }

    /// The display of passing tests' output imposed on every test, if any.
    pub closed spec fn success_output_setting(&self) -> Option<TestOutputDisplay> {
        self.success_output
    }

    /// The display of failing tests' output imposed on every test, if any.
    pub closed spec fn failure_output_setting(&self) -> Option<TestOutputDisplay> {
        self.failure_output
    }

    /// The level of status lines asked for, if any.
    pub closed spec fn status_level_setting(&self) -> Option<StatusLevel> {
        self.status_level
    }

    /// The level of the closing listing asked for, if any.
    pub closed spec fn final_status_level_setting(&self) -> Option<FinalStatusLevel> {
        self.final_status_level
    }

    /// Whether the progress bar is hidden.
    pub closed spec fn spec_hide_progress_bar(&self) -> bool {
        self.hide_progress_bar
    }

    /// A builder with the default settings.
    pub fn new() -> (r: TestReporterBuilder)
        ensures
            !r.spec_imitate_cargo(),
            !r.spec_hide_progress_bar(),
            r.status_level_setting() is None,
            r.final_status_level_setting() is None,
            r.success_output_setting() is None,
            r.failure_output_setting() is None,
    {
        TestReporterBuilder {
            failure_output: None,
            success_output: None,
            status_level: None,
            final_status_level: None,
            hide_progress_bar: false,
            imitate_cargo: false,
        }
    }

    /// Whether to imitate the output of the standard harness.
    pub fn set_imitate_cargo(&mut self, imitate_cargo: bool) -> (r: &mut Self)
        ensures
            r.spec_imitate_cargo() == imitate_cargo,
            r.spec_hide_progress_bar() == old(self).spec_hide_progress_bar(),
            r.status_level_setting() == old(self).status_level_setting(),
            r.final_status_level_setting() == old(self).final_status_level_setting(),
            r.success_output_setting() == old(self).success_output_setting(),
            r.failure_output_setting() == old(self).failure_output_setting(),
            *final(self) == *final(r),
    {
        self.imitate_cargo = imitate_cargo;
        self
    }

    /// Creates a reporter for a run of the tests of `test_list` that writes
    /// to `output`: a buffer keeps the plain status lines; the terminal gets
    /// them without a bar if the bar is hidden, the lines of the standard
    /// harness if it is imitated, and a progress bar otherwise.
    pub fn build(&self, test_list: &TestList, output: ReporterOutput) -> (r: TestReporter)
        ensures
            r.spec_mode() == match output {
                ReporterOutput::Buffer => ReporterMode::Buffer,
                ReporterOutput::Stderr => if self.spec_hide_progress_bar() {
                    ReporterMode::StderrWithoutBar
                } else if self.spec_imitate_cargo() {
                    ReporterMode::ImitateCargo
                } else {
                    ReporterMode::StderrWithBar
                },
            },
            r.spec_styles() == Styles::spec_plain(),
            r.spec_status_level() == match self.status_level_setting() {
                Some(l) => l,
                None => StatusLevel::Pass,
            },
            r.spec_final_status_level() == match self.final_status_level_setting() {
                Some(l) => l,
                None => FinalStatusLevel::Slow,
            },
            r.spec_final_outputs().len() == 0,
            r.spec_cargo_failures().len() == 0,
            r.spec_force_success_output() == self.success_output_setting(),
            r.spec_force_failure_output() == self.failure_output_setting(),
            r.spec_cancel_status() is None,
            r.wf(),
            r.spec_bar_length() == test_list.tests@.len(),
    {
        let status_level = match self.status_level {
            Some(l) => l,
            None => StatusLevel::Pass,
        };
        let final_status_level = match self.final_status_level {
            Some(l) => l,
            None => FinalStatusLevel::Slow,
        };
        let mode = match output {
            ReporterOutput::Buffer => ReporterMode::Buffer,
            ReporterOutput::Stderr => if self.hide_progress_bar {
                ReporterMode::StderrWithoutBar
            } else if self.imitate_cargo {
                ReporterMode::ImitateCargo
            } else {
                ReporterMode::StderrWithBar
            },
        };
        TestReporter {
            status_level,
            final_status_level,
            force_success_output: self.success_output,
            force_failure_output: self.failure_output,
            styles: Styles::plain(),
            cancel_status: None,
            final_outputs: Vec::new(),
            cargo_failures: Vec::new(),
            mode,
            bar_length: test_list.tests.len(),
        }
    }
}

/// New settings for the progress bar.
#[derive(Clone, Debug)]
pub struct ProgressUpdate {
    /// The text before the bar.
    pub prefix: String,
    /// The text after the bar, if it changes.
    pub message: Option<String>,
    /// The number of tests to run, if it changes.
    pub length: Option<u64>,
    /// The number of tests finished, if it changes.
    pub position: Option<u64>,
}

/// What the reporter writes for one event.
#[derive(Clone, Debug)]
pub struct Rendered {
    /// Text for standard output.
    pub stdout: String,
    /// Text for standard error, or for the buffer.
    pub stderr: String,
    /// New settings for the progress bar, if it shows.
    pub progress: Option<ProgressUpdate>,
}

/// Reports the events of a run as console output.
pub struct TestReporter {
    status_level: StatusLevel,
    final_status_level: FinalStatusLevel,
    force_success_output: Option<TestOutputDisplay>,
    force_failure_output: Option<TestOutputDisplay>,
    styles: Styles,
    cancel_status: Option<CancelReason>,
    final_outputs: Vec<(TestInstance, FinalOutput)>,
    cargo_failures: Vec<(TestInstance, ExecuteStatus)>,
    mode: ReporterMode,
    bar_length: usize,
}

impl TestReporter {
    /// How the reporter renders.
    pub closed spec fn spec_mode(&self) -> ReporterMode {
        self.mode
    }

    /// The styles of the output.
    pub closed spec fn spec_styles(&self) -> Styles {
        self.styles
    }

    /// The level of the status lines shown during the run.
    pub closed spec fn spec_status_level(&self) -> StatusLevel {
        self.status_level
    }

    /// The level of the tests listed at the end of the run.
    pub closed spec fn spec_final_status_level(&self) -> FinalStatusLevel {
        self.final_status_level
    }

    /// The tests listed at the end of the run, in listing order.
    pub closed spec fn spec_final_outputs(&self) -> Seq<(TestInstance, FinalOutput)> {
        self.final_outputs@
    }

    /// The failed tests, in the order they finished, for the standard
    /// harness's closing lines.
    pub closed spec fn spec_cargo_failures(&self) -> Seq<(TestInstance, ExecuteStatus)> {
        self.cargo_failures@
    }

    /// The display of passing tests' output that the reporter imposes, if any.
    pub closed spec fn spec_force_success_output(&self) -> Option<TestOutputDisplay> {
        self.force_success_output
    }

    /// The display of failing tests' output that the reporter imposes, if any.
    pub closed spec fn spec_force_failure_output(&self) -> Option<TestOutputDisplay> {
        self.force_failure_output
    }

    /// Whether the run is being canceled.
    pub closed spec fn spec_cancel_status(&self) -> Option<CancelReason> {
        self.cancel_status
    }

    /// The length of the progress bar when the run starts.
    pub closed spec fn spec_bar_length(&self) -> nat {
        self.bar_length as nat
    }

    /// The listed tests are in listing order.
    pub open spec fn wf(&self) -> bool {
        in_listing_order(self.spec_final_outputs())
    }

    /// How the reporter renders.
    pub fn mode(&self) -> (r: ReporterMode)
        ensures
            r == self.spec_mode(),
    {
        self.mode
    }

    /// The length of the progress bar when the run starts.
    pub fn bar_length(&self) -> (r: usize)
        ensures
            r == self.spec_bar_length(),
    {
        self.bar_length
    }

    /// Colorizes output.
    pub fn colorize(&mut self)
        ensures
            final(self).spec_styles().is_colorized,
            final(self).spec_mode() == old(self).spec_mode(),
            final(self).spec_final_outputs() == old(self).spec_final_outputs(),
            final(self).wf() == old(self).wf(),
    {
        self.styles.colorize();
    }
}

fn push_run_started(out: &mut String, run_count: usize, skip_count: usize, st: &Styles)
    ensures
        final(out)@ == old(out)@ + run_started_text(run_count as nat, skip_count as nat, *st),
{
    let ghost start = out@;
    push_label(out, "Starting", st.pass);
    out.append(" ");
    push_count(out, run_count, st.count);
    out.append(" ");
    if run_count == 1 {
        out.append("test");
    } else {
        out.append("tests");
    }
    let ghost a = out@;
    if skip_count > 0 {
        out.append(" (");
        push_count(out, skip_count, st.count);
        out.append(" skipped)");
    }
    assert(out@ =~= a + if skip_count > 0 {
        " ("@ + painted(decimal(skip_count as nat), st.count) + " skipped)"@
    } else {
        Seq::<char>::empty()
    });
    out.append("\n");
    assert(out@ =~= start + run_started_text(run_count as nat, skip_count as nat, *st));
}

fn push_slow(out: &mut String, name: &str, elapsed: u64, will_terminate: bool, level: StatusLevel, st: &Styles)
    ensures
        final(out)@ == old(out)@ + slow_text(name@, elapsed as nat, will_terminate, level, *st),
{
    let ghost start = out@;
    if !will_terminate && level.rank() >= 2 {
        push_label(out, "SLOW", st.skip);
        out.append(" ");
    } else if will_terminate {
        push_label(out, "TERMINATING", st.fail);
        out.append(" ");
    }
    push_duration(out, elapsed, true);
    push_instance(out, name, st.list_styles);
    out.append("\n");
    assert(out@ =~= start + slow_text(name@, elapsed as nat, will_terminate, level, *st));
}

fn push_skip_line(out: &mut String, name: &str, st: &Styles)
    ensures
        final(out)@ == old(out)@ + skip_line_text(name@, *st),
{
    let ghost start = out@;
    push_label(out, "SKIP", st.skip);
    out.append(" ");
    out.append("[         ] ");
    push_instance(out, name, st.list_styles);
    out.append("\n");
    assert(out@ =~= start + skip_line_text(name@, *st));
}

fn push_status_line(out: &mut String, name: &str, status: &ExecuteStatus, at_end: bool, st: &Styles)
    ensures
        final(out)@ == old(out)@ + status_line_text(name@, *status, at_end, *st),
{
    let ghost start = out@;
    if status.result == ExecutionResult::Pass {
        if at_end && status.is_slow {
            push_label(out, "SLOW", st.skip);
        } else {
            push_label(out, "PASS", st.pass);
        }
    } else {
        push_label(out, status_str(status.result), st.fail);
    }
    out.append(" ");
    push_duration(out, status.time_taken, false);
    push_instance(out, name, st.list_styles);
    out.append("\n");
    assert(out@ =~= start + status_line_text(name@, *status, at_end, *st));
}

fn push_output_block(out: &mut String, name: &str, status: &ExecuteStatus, st: &Styles)
    ensures
        final(out)@ == old(out)@ + output_block_text(name@, *status, *st),
{
    let ghost start = out@;
    let hs = if status.result == ExecutionResult::Pass {
        st.pass
    } else {
        st.fail
    };
    match &status.output {
        Some(o) => {
            out.append("\n");
            push_painted(out, "--- ", hs);
            let mut header = String::new();
            push_padded_right(&mut header, "STDOUT:", 21);
            assert(header@ =~= pad_right("STDOUT:"@, 21));
            push_painted(out, header.as_str(), hs);
            push_instance(out, name, st.list_styles);
            push_painted(out, " ---", hs);
            out.append("\n");
            out.append(o.as_str());
            let ghost a = out@;
            if st.is_colorized {
                out.append("\x1b[0m");
            }
            assert(out@ =~= a + if st.is_colorized {
                "\x1b[0m"@
            } else {
                Seq::<char>::empty()
            });
        },
        None => {},
    }
    out.append("\n");
    assert(out@ =~= start + output_block_text(name@, *status, *st));
}

fn push_entry(out: &mut String, entry: &(TestInstance, FinalOutput), level: FinalStatusLevel, st: &Styles)
    ensures
        final(out)@ == old(out)@ + entry_text(*entry, level, *st),
{
    let ghost start = out@;
    let name = entry.0.name.as_str();
    let entry_level = entry.1.final_status_level();
    match &entry.1 {
        FinalOutput::Skipped(_) => {
            push_skip_line(out, name, st);
        },
        FinalOutput::Executed { run_status, test_output_display } => {
            if level.rank() >= entry_level.rank() || test_output_display.is_final() {
                push_status_line(out, name, run_status, true, st);
            }
            if test_output_display.is_final() {
                push_output_block(out, name, run_status, st);
            }
            assert(out@ =~= start + entry_text(*entry, level, *st));
        },
    }
}

fn push_summary_line(out: &mut String, elapsed: u64, stats: &RunStats, st: &Styles)
    ensures
        final(out)@ == old(out)@ + summary_line_text(elapsed as nat, *stats, *st),
{
    let ghost start = out@;
    out.append("------------\n");
    let style = if stats.any_failed() {
        st.fail
    } else {
        st.pass
    };
    push_label(out, "Summary", style);
    out.append(" ");
    push_duration(out, elapsed, false);
    push_count(out, stats.finished_count, st.count);
    let ghost a = out@;
    if stats.finished_count != stats.initial_run_count {
        out.append("/");
        push_count(out, stats.initial_run_count, st.count);
    }
    assert(out@ =~= a + if stats.finished_count != stats.initial_run_count {
        "/"@ + painted(decimal(stats.initial_run_count as nat), st.count)
    } else {
        Seq::<char>::empty()
    });
    if stats.finished_count == 1 && stats.initial_run_count == 1 {
        out.append(" test run: ");
    } else {
        out.append(" tests run: ");
    }
    write_summary_str(stats, st, out);
    out.append("\n");
    assert(out@ =~= start + summary_line_text(elapsed as nat, *stats, *st));
}

fn push_listing(out: &mut String, list: &Vec<(TestInstance, FinalOutput)>, level: FinalStatusLevel, st: &Styles)
    ensures
        final(out)@ == old(out)@ + listing_text(list@, level, *st),
{
    let ghost start = out@;
    let mut i: usize = 0;
    while i < list.len()
        invariant
            i <= list@.len(),
            out@ == start + listing_text(list@.subrange(0, i as int), level, *st),
        decreases list@.len() - i,
    {
        proof {
            let s = list@.subrange(0, i + 1);
            assert(s.drop_last() == list@.subrange(0, i as int));
            assert(s.last() == list@[i as int]);
        }
        push_entry(out, &list[i], level, st);
        assert(out@ =~= start + listing_text(list@.subrange(0, i + 1), level, *st));
        i += 1;
    }
    assert(list@.subrange(0, i as int) == list@);
}

/// The line that announces a cancellation.
pub open spec fn cancel_text(running: usize, st: Styles) -> Seq<char> {
    painted(pad_left("Canceling"@, 12), st.fail) + " "@ + "due to "@ + painted("signal"@, st.fail) + ": "@
        + painted(decimal(running as nat), st.count) + " tests still running\n"@
}

/// The line that announces a pause (`Pausing`) or a continuation
/// (`Continuing`).
pub open spec fn pause_text(label: Seq<char>, running: usize, st: Styles) -> Seq<char> {
    painted(pad_left(label, 12), st.pass) + " "@ + painted(decimal(running as nat), st.count)
        + " running tests due to "@ + painted("signal"@, st.count) + "\n"@
}

/// The display that applies to a finished test: the reporter's own setting
/// if it has one, else the event's.
pub open spec fn display_for(force: Option<TestOutputDisplay>, event_setting: TestOutputDisplay) -> TestOutputDisplay {
    match force {
        Some(d) => d,
        None => event_setting,
    }
}

/// The status line and output of a finished test, when the status level
/// shows it.
pub open spec fn finished_text(
    name: Seq<char>,
    status: ExecuteStatus,
    display: TestOutputDisplay,
    level: StatusLevel,
    cancel: Option<CancelReason>,
    st: Styles,
) -> Seq<char> {
    let needed: u8 = if status.result == ExecutionResult::Pass {
        3
    } else {
        1
    };
    if level.spec_rank() >= needed {
        status_line_text(name, status, false, st) + if cancel is None && shows_immediately(display) {
            output_block_text(name, status, st)
        } else {
            Seq::empty()
        }
    } else {
        Seq::empty()
    }
}

/// Writing `event` with the reporter `rep` turns the text `before` into
/// `after`: the status lines of the event are appended.
pub open spec fn event_written(rep: TestReporter, event: TestEvent, before: Seq<char>, after: Seq<char>) -> bool {
    let st = rep.spec_styles();
    match event {
        TestEvent::RunStarted { test_list } => after == before + run_started_text(
            test_list.tests@.len(),
            test_list.skip_count as nat,
            st,
        ),
        TestEvent::TestStarted { .. } => after == before,
        TestEvent::SetupFinished { .. } => after == before,
        TestEvent::TestSlow { test_instance, elapsed, will_terminate } => after == before + slow_text(
            test_instance.name@,
            elapsed as nat,
            will_terminate,
            rep.spec_status_level(),
            st,
        ),
        TestEvent::TestFinished { test_instance, success_output, failure_output, run_status, .. } => after
            == before + finished_text(
            test_instance.name@,
            run_status,
            if run_status.result == ExecutionResult::Pass {
                display_for(rep.spec_force_success_output(), success_output)
            } else {
                display_for(rep.spec_force_failure_output(), failure_output)
            },
            rep.spec_status_level(),
            rep.spec_cancel_status(),
            st,
        ),
        TestEvent::TestSkipped { test_instance, .. } => after == before + if rep.spec_status_level().spec_rank()
            >= 4 {
            skip_line_text(test_instance.name@, st)
        } else {
            Seq::empty()
        },
        TestEvent::RunBeginCancel { running, .. } => after == before + cancel_text(running, st),
        TestEvent::RunPaused { running } => after == before + pause_text("Pausing"@, running, st),
        TestEvent::RunContinued { running } => after == before + pause_text("Continuing"@, running, st),
        TestEvent::RunFinished { elapsed, run_stats, .. } => after == before + summary_line_text(
            elapsed as nat,
            run_stats,
            st,
        ) + listing_text(rep.spec_final_outputs(), rep.spec_final_status_level(), st),
    }
}

/// The tests that the end of the run lists after a test finished: the test
/// joins them if its output is shown at the end or its level is listed.
pub open spec fn listing_after(
    rep: TestReporter,
    test_instance: TestInstance,
    run_status: ExecuteStatus,
    success_output: TestOutputDisplay,
    failure_output: TestOutputDisplay,
) -> Multiset<(TestInstance, FinalOutput)> {
    let display = if run_status.result == ExecutionResult::Pass {
        display_for(rep.spec_force_success_output(), success_output)
    } else {
        display_for(rep.spec_force_failure_output(), failure_output)
    };
    let entry = (test_instance, FinalOutput::Executed { run_status, test_output_display: display });
    if shows_final(display) || rep.spec_final_status_level().spec_rank()
        >= entry.1.spec_final_status_level().spec_rank() {
        rep.spec_final_outputs().to_multiset().insert(entry)
    } else {
        rep.spec_final_outputs().to_multiset()
    }
}

impl TestReporter {
    /// The display that applies to a finished test with this result.
    fn display(&self, passed: bool, success_output: TestOutputDisplay, failure_output: TestOutputDisplay) -> (r: TestOutputDisplay)
        ensures
            r == if passed {
                display_for(self.spec_force_success_output(), success_output)
            } else {
                display_for(self.spec_force_failure_output(), failure_output)
            },
    {
        if passed {
            match self.force_success_output {
                Some(d) => d,
                None => success_output,
            }
        } else {
            match self.force_failure_output {
                Some(d) => d,
                None => failure_output,
            }
        }
    }

    /// Writes the status lines of an event to `out` and keeps what the end
    /// of the run lists.
    pub fn write_event_impl(&mut self, event: &TestEvent, out: &mut String)
        requires
            old(self).wf(),
        ensures
            final(self).wf(),
            final(self).spec_styles() == old(self).spec_styles(),
            final(self).spec_mode() == old(self).spec_mode(),
            final(self).spec_status_level() == old(self).spec_status_level(),
            final(self).spec_final_status_level() == old(self).spec_final_status_level(),
            final(self).spec_cargo_failures() == old(self).spec_cargo_failures(),
            !(*event is TestFinished || *event is TestSkipped) ==> final(self).spec_final_outputs()
                == old(self).spec_final_outputs(),
            event_written(*old(self), *event, old(out)@, final(out)@),
            *event matches TestEvent::TestFinished { test_instance, success_output, failure_output, run_status, .. }
                ==> final(self).spec_final_outputs().to_multiset() == listing_after(
                *old(self),
                test_instance,
                run_status,
                success_output,
                failure_output,
            ),
            *event matches TestEvent::TestSkipped { test_instance, reason } ==> final(self).spec_final_outputs().to_multiset()
                == if old(self).spec_final_status_level().spec_rank() >= 3 {
                old(self).spec_final_outputs().to_multiset().insert((test_instance, FinalOutput::Skipped(reason)))
            } else {
                old(self).spec_final_outputs().to_multiset()
            },
            *event is RunBeginCancel ==> final(self).spec_cancel_status() is Some,
    {
        let ghost start = out@;
        match event {
            TestEvent::RunStarted { test_list } => {
                push_run_started(out, test_list.run_count(), test_list.skip_count(), &self.styles);
            },
            TestEvent::TestStarted { .. } => {},
            TestEvent::SetupFinished { .. } => {},
            TestEvent::TestSlow { test_instance, elapsed, will_terminate } => {
                push_slow(out, test_instance.name.as_str(), *elapsed, *will_terminate, self.status_level, &self.styles);
            },
            TestEvent::TestFinished { test_instance, success_output, failure_output, run_status, .. } => {
                let passed = run_status.result == ExecutionResult::Pass;
                let display = self.display(passed, *success_output, *failure_output);
                let needed: u8 = if passed {
                    3
                } else {
                    1
                };
                if self.status_level.rank() >= needed {
                    push_status_line(out, test_instance.name.as_str(), run_status, false, &self.styles);
                    if self.cancel_status.is_none() && display.is_immediate() {
                        push_output_block(out, test_instance.name.as_str(), run_status, &self.styles);
                    }
                }
                assert(out@ =~= start + finished_text(
                    test_instance.name@,
                    *run_status,
                    display,
                    self.status_level,
                    self.cancel_status,
                    self.styles,
                ));
                let entry = (
                    test_instance.duplicate(),
                    FinalOutput::Executed { run_status: run_status.duplicate(), test_output_display: display },
                );
                if display.is_final() || self.final_status_level.rank() >= entry.1.final_status_level().rank() {
                    insert_in_order(&mut self.final_outputs, entry);
                }
            },
            TestEvent::TestSkipped { test_instance, reason } => {
                if self.status_level.rank() >= 4 {
                    push_skip_line(out, test_instance.name.as_str(), &self.styles);
                }
                if self.final_status_level.rank() >= 3 {
                    insert_in_order(
                        &mut self.final_outputs,
                        (test_instance.duplicate(), FinalOutput::Skipped(*reason)),
                    );
                }
            },
            TestEvent::RunBeginCancel { running, reason } => {
                self.cancel_status = Some(*reason);
                push_label(out, "Canceling", self.styles.fail);
                out.append(" ");
                out.append("due to ");
                push_painted(out, "signal", self.styles.fail);
                out.append(": ");
                push_count(out, *running, self.styles.count);
                out.append(" tests still running\n");
                assert(out@ =~= start + cancel_text(*running, self.styles));
            },
            TestEvent::RunPaused { running } => {
                self.push_pause(out, "Pausing", *running);
            },
            TestEvent::RunContinued { running } => {
                self.push_pause(out, "Continuing", *running);
            },
            TestEvent::RunFinished { elapsed, run_stats, .. } => {
                push_summary_line(out, *elapsed, run_stats, &self.styles);
                push_listing(out, &self.final_outputs, self.final_status_level, &self.styles);
            },
        }
    }

    fn push_pause(&self, out: &mut String, label: &str, running: usize)
        ensures
            final(out)@ == old(out)@ + pause_text(label@, running, self.spec_styles()),
    {
        let ghost start = out@;
        push_label(out, label, self.styles.pass);
        out.append(" ");
        push_count(out, running, self.styles.count);
        out.append(" running tests due to ");
        push_painted(out, "signal", self.styles.count);
        out.append("\n");
        assert(out@ =~= start + pause_text(label@, running, self.spec_styles()));
    }
}

/// The closing lines of the standard harness on standard output: the
/// failed tests by name, if any failed.
pub open spec fn cargo_failures_text(f: Seq<(TestInstance, ExecuteStatus)>) -> Seq<char> {
    if f.len() == 0 {
        Seq::empty()
    } else {
        "\nfailures:\n"@ + "\nfailures:\n"@ + cargo_names_text(f)
    }
}

/// One indented line per failed test.
pub open spec fn cargo_names_text(f: Seq<(TestInstance, ExecuteStatus)>) -> Seq<char>
    decreases f.len(),
{
    if f.len() == 0 {
        Seq::empty()
    } else {
        cargo_names_text(f.drop_last()) + "    "@ + f.last().0.name@ + "\n"@
    }
}

/// The failure messages, each followed by an empty line.
pub open spec fn cargo_messages_text(f: Seq<(TestInstance, ExecuteStatus)>) -> Seq<char>
    decreases f.len(),
{
    if f.len() == 0 {
        Seq::empty()
    } else {
        cargo_messages_text(f.drop_last()) + match f.last().1.output {
            Some(m) => m@ + "\n\n"@,
            None => Seq::empty(),
        }
    }
}

/// The progress bar after an event: while tests start and finish, the
/// state of the run, its counts, and the finished tests out of those to
/// run; when a cancellation starts, the canceling prefix.
pub open spec fn progress_for(event: TestEvent, st: Styles, p: Option<ProgressUpdate>) -> bool {
    match event {
        TestEvent::TestStarted { current_stats, running, cancel_state, .. } => p matches Some(u) && u.message
            matches Some(m) && m@ == progress_msg_text(current_stats, running, st) && u.length == Some(
            current_stats.initial_run_count as u64,
        ) && u.position == Some(current_stats.finished_count as u64) && (cancel_state is None
            ==> u.prefix@ == painted(
            pad_left("Running"@, 12),
            if current_stats.failed > 0 || current_stats.timed_out > 0 {
                st.fail
            } else {
                st.pass
            },
        )),
        TestEvent::TestFinished { current_stats, running, cancel_state, .. } => p matches Some(u) && u.message
            matches Some(m) && m@ == progress_msg_text(current_stats, running, st) && u.length == Some(
            current_stats.initial_run_count as u64,
        ) && u.position == Some(current_stats.finished_count as u64) && (cancel_state is None
            ==> u.prefix@ == painted(
            pad_left("Running"@, 12),
            if current_stats.failed > 0 || current_stats.timed_out > 0 {
                st.fail
            } else {
                st.pass
            },
        )),
        TestEvent::RunBeginCancel { .. } => p matches Some(u) && u.prefix@ == painted(
            pad_left("Canceling"@, 12),
            st.fail,
        ) && u.message is None && u.length is None && u.position is None,
        _ => p is None,
    }
}

fn progress_from_stats(
    current_stats: &RunStats,
    running: usize,
    cancel_state: Option<CancelReason>,
    styles: &Styles,
) -> (r: ProgressUpdate)
    ensures
        r.message matches Some(m) && m@ == progress_msg_text(*current_stats, running, *styles),
        r.length == Some(current_stats.initial_run_count as u64),
        r.position == Some(current_stats.finished_count as u64),
        cancel_state is None ==> r.prefix@ == painted(
            pad_left("Running"@, 12),
            if current_stats.failed > 0 || current_stats.timed_out > 0 {
                styles.fail
            } else {
                styles.pass
            },
        ),
{
    let state = RunningState::new(cancel_state, current_stats);
    ProgressUpdate {
        prefix: state.progress_bar_prefix(styles),
        message: Some(progress_bar_msg(current_stats, running, styles)),
        length: Some(current_stats.initial_run_count as u64),
        position: Some(current_stats.finished_count as u64),
    }
}

/// The new settings of the progress bar after an event, if they change.
pub fn update_progress_bar(event: &TestEvent, styles: &Styles) -> (r: Option<ProgressUpdate>)
    ensures
        progress_for(*event, *styles, r),
{
    match event {
        TestEvent::TestStarted { current_stats, running, cancel_state, .. } => Some(
            progress_from_stats(current_stats, *running, *cancel_state, styles),
        ),
        TestEvent::TestFinished { current_stats, running, cancel_state, .. } => Some(
            progress_from_stats(current_stats, *running, *cancel_state, styles),
        ),
        TestEvent::RunBeginCancel { reason, .. } => {
            let state = RunningState::Canceling(*reason);
            Some(
                ProgressUpdate {
                    prefix: state.progress_bar_prefix(styles),
                    message: None,
                    length: None,
                    position: None,
                },
            )
        },
        _ => None,
    }
}

impl TestReporter {
    /// Reports an event: the status lines for standard error (or the
    /// buffer), with the progress bar's new settings when it shows; or, when
    /// imitating the standard harness, one line per finished test on
    /// standard output and, at the end, the failures.
    pub fn report_event(&mut self, event: &TestEvent) -> (r: Rendered)
        requires
            old(self).wf(),
        ensures
            final(self).wf(),
            final(self).spec_mode() == old(self).spec_mode(),
            final(self).spec_styles() == old(self).spec_styles(),
            old(self).spec_mode() != ReporterMode::ImitateCargo ==> event_written(
                *old(self),
                *event,
                Seq::empty(),
                r.stderr@,
            ) && r.stdout@.len() == 0,
            old(self).spec_mode() == ReporterMode::StderrWithBar ==> progress_for(
                *event,
                old(self).spec_styles(),
                r.progress,
            ),
            old(self).spec_mode() != ReporterMode::StderrWithBar ==> r.progress is None,
            in_listing_order(old(self).spec_final_outputs()),
            in_listing_order(final(self).spec_final_outputs()),
            old(self).spec_mode() == ReporterMode::ImitateCargo ==> match *event {
                TestEvent::TestFinished { test_instance, run_status, .. } => r.stdout@ == cargo_line_text(
                    test_instance.name@,
                    run_status.result == ExecutionResult::Pass,
                ) && r.stderr@.len() == 0 && final(self).spec_cargo_failures() == if run_status.result
                    == ExecutionResult::Pass {
                    old(self).spec_cargo_failures()
                } else {
                    old(self).spec_cargo_failures().push((test_instance, run_status))
                },
                TestEvent::RunFinished { .. } => r.stdout@ == cargo_failures_text(
                    old(self).spec_cargo_failures(),
                ) && r.stderr@ == if old(self).spec_cargo_failures().len() == 0 {
                    Seq::empty()
                } else {
                    cargo_messages_text(old(self).spec_cargo_failures())
                },
                _ => r.stdout@.len() == 0 && r.stderr@.len() == 0,
            },
    {
        match self.mode {
            ReporterMode::ImitateCargo => self.write_cargo(event),
            _ => {
                let mut text = String::new();
                self.write_event_impl(event, &mut text);
                let progress = if self.mode == ReporterMode::StderrWithBar {
                    update_progress_bar(event, &self.styles)
                } else {
                    None
                };
                Rendered { stdout: String::new(), stderr: text, progress }
            },
        }
    }

    fn write_cargo(&mut self, event: &TestEvent) -> (r: Rendered)
        requires
            old(self).wf(),
        ensures
            final(self).wf(),
            final(self).spec_mode() == old(self).spec_mode(),
            final(self).spec_styles() == old(self).spec_styles(),
            r.progress is None,
            match *event {
                TestEvent::TestFinished { test_instance, run_status, .. } => r.stdout@ == cargo_line_text(
                    test_instance.name@,
                    run_status.result == ExecutionResult::Pass,
                ) && r.stderr@.len() == 0 && final(self).spec_cargo_failures() == if run_status.result
                    == ExecutionResult::Pass {
                    old(self).spec_cargo_failures()
                } else {
                    old(self).spec_cargo_failures().push((test_instance, run_status))
                },
                TestEvent::RunFinished { .. } => r.stdout@ == cargo_failures_text(
                    old(self).spec_cargo_failures(),
                ) && r.stderr@ == if old(self).spec_cargo_failures().len() == 0 {
                    Seq::empty()
                } else {
                    cargo_messages_text(old(self).spec_cargo_failures())
                },
                _ => r.stdout@.len() == 0 && r.stderr@.len() == 0,
            },
    {
        let mut stdout = String::new();
        let mut stderr = String::new();
        match event {
            TestEvent::TestFinished { test_instance, run_status, .. } => {
                let passed = run_status.result == ExecutionResult::Pass;
                if !passed {
                    self.cargo_failures.push((test_instance.duplicate(), run_status.duplicate()));
                }
                stdout.append("test ");
                stdout.append(test_instance.name.as_str());
                stdout.append(" ... ");
                if passed {
                    stdout.append("ok");
                } else {
                    stdout.append("FAILED");
                }
                stdout.append("\n");
                assert(stdout@ =~= cargo_line_text(test_instance.name@, passed));
            },
            TestEvent::RunFinished { .. } => {
                if self.cargo_failures.len() > 0 {
                    stdout.append("\nfailures:\n");
                    let mut i: usize = 0;
                    while i < self.cargo_failures.len()
                        invariant
                            i <= self.cargo_failures@.len(),
                            stderr@ == cargo_messages_text(self.cargo_failures@.subrange(0, i as int)),
                        decreases self.cargo_failures@.len() - i,
                    {
                        proof {
                            let f = self.cargo_failures@.subrange(0, i + 1);
                            assert(f.drop_last() == self.cargo_failures@.subrange(0, i as int));
                        }
                        match &self.cargo_failures[i].1.output {
                            Some(m) => {
                                stderr.append(m.as_str());
                                stderr.append("\n\n");
                            },
                            None => {},
                        }
                        assert(stderr@ =~= cargo_messages_text(self.cargo_failures@.subrange(0, i + 1)));
                        i += 1;
                    }
                    assert(self.cargo_failures@.subrange(0, i as int) == self.cargo_failures@);
                    stdout.append("\nfailures:\n");
                    let ghost head = stdout@;
                    let mut j: usize = 0;
                    while j < self.cargo_failures.len()
                        invariant
                            j <= self.cargo_failures@.len(),
                            stdout@ == head + cargo_names_text(self.cargo_failures@.subrange(0, j as int)),
                        decreases self.cargo_failures@.len() - j,
                    {
                        proof {
                            let f = self.cargo_failures@.subrange(0, j + 1);
                            assert(f.drop_last() == self.cargo_failures@.subrange(0, j as int));
                        }
                        stdout.append("    ");
                        stdout.append(self.cargo_failures[j].0.name.as_str());
                        stdout.append("\n");
                        assert(stdout@ =~= head + cargo_names_text(self.cargo_failures@.subrange(0, j + 1)));
                        j += 1;
                    }
                    assert(self.cargo_failures@.subrange(0, j as int) == self.cargo_failures@);
                    assert(stdout@ =~= cargo_failures_text(self.cargo_failures@));
                }
            },
            _ => {},
        }
        Rendered { stdout, stderr, progress: None }
    }
}

} // verus!