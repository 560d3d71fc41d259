use std::collections::HashMap;
use std::future::Future;
use std::pin::Pin;

use async_test::reporter::ReporterMode;
use async_test::{
    run, Arguments, Conclusion, FixtureTable, Host, Outcome, ReporterOutput, TestEvent, TestInfo,
    TestList, TestReporter, TestReporterBuilder, Tester, Trial,
};

type BoxFut = Pin<Box<dyn Future<Output = ()> + Send + 'static>>;
type Body = Box<dyn Fn() -> BoxFut>;

fn body<Fut: Future<Output = ()> + Send + 'static>(f: impl Fn() -> Fut + 'static) -> Body {
    Box::new(move || Box::pin(f()) as BoxFut)
}

struct TestHost {
    rt: tokio::runtime::Runtime,
    reporter: TestReporter,
    stdout: String,
    stderr: String,
    skipped: Vec<String>,
    clock: u64,
}

impl TestHost {
    fn new() -> Self {
        let list = TestList { tests: vec![], skip_count: 0 };
        let mut builder = TestReporterBuilder::new();
        builder.set_imitate_cargo(true);
        let reporter = builder.build(&list, ReporterOutput::Stderr);
        assert_eq!(reporter.mode(), ReporterMode::ImitateCargo);
        TestHost {
            rt: tokio::runtime::Builder::new_current_thread().build().unwrap(),
            reporter,
            stdout: String::new(),
            stderr: String::new(),
            skipped: vec![],
            clock: 0,
        }
    }
}

impl Host<Body, ()> for TestHost {
    fn now_millis(&mut self) -> u64 {
        self.clock += 1;
        self.clock
    }

    fn init_fixture(&mut self, _key: usize) {}

    fn fixture_name(&mut self, key: usize) -> String {
        format!("fixture{key}")
    }

    fn run_test(&mut self, _info: &TestInfo, runner: &Body, _fixtures: &FixtureTable<()>) -> Outcome {
        let fut = runner();
        match self.rt.block_on(async move { tokio::spawn(fut).await }) {
            Ok(()) => Outcome::Passed,
            Err(e) => {
                let payload = e.try_into_panic().ok().and_then(|p| {
                    p.downcast_ref::<&str>()
                        .map(|s| s.to_string())
                        .or_else(|| p.downcast_ref::<String>().cloned())
                });
                Outcome::from_abnormal_exit(payload)
            }
        }
    }

    fn report(&mut self, event: TestEvent) {
        if let TestEvent::TestSkipped { test_instance, .. } = &event {
            self.skipped.push(test_instance.name.clone());
        }
        let r = self.reporter.report_event(&event);
        self.stdout.push_str(&r.stdout);
        self.stderr.push_str(&r.stderr);
    }
}

fn tests() -> Tester<Body> {
    let mut tester = Tester::new(0);
    tester.add(Trial::test("foo".to_string(), body(|| async {}))).unwrap();
    tester.add(Trial::test("bar".to_string(), body(|| async {}))).unwrap();
    tester.add(Trial::test("barro".to_string(), body(|| async {}))).unwrap();
    tester
}

fn args<const N: usize>(list: [&str; N]) -> Arguments {
    let mut a = Arguments::default();
    let mut i = 0;
    while i < N {
        match list[i] {
            "--test" => a.test = true,
            "--include-ignored" => a.include_ignored = true,
            "--ignored" => a.ignored = true,
            "--exact" => a.exact = true,
            "--skip" => {
                i += 1;
                a.skip.push(list[i].to_string());
            }
            other => a.filter.push(other.to_string()),
        }
        i += 1;
    }
    a
}

/// Runs the tests and checks the conclusion, the number of tests listed
/// (run or ignored), and the lines of the expected output: the result of
/// each test, each failure message, and the closing list of failures.
fn check(args: Arguments, num_listed: usize, expected: Conclusion, out: &str) {
    let mut host = TestHost::new();
    let c = run(&args, tests(), &mut host);
    assert_eq!(c, expected);
    assert_eq!(c.num_passed + c.num_failed + c.num_ignored, num_listed);

    let mut results: HashMap<String, String> = HashMap::new();
    let mut messages: Vec<String> = vec![];
    let mut closing: Vec<String> = vec![];
    let mut failures_seen = 0;
    for line in out.lines().map(str::trim).filter(|l| !l.is_empty()) {
        if line == "failures:" {
            failures_seen += 1;
        } else if line.starts_with("test ") {
            let words: Vec<&str> = line.split_whitespace().collect();
            let status = words[words.len() - 1];
            let name = words[words.len() - 3];
            results.insert(name.to_string(), status.to_string());
        } else if line.starts_with("---- ") {
        } else if failures_seen == 2 {
            closing.push(line.to_string());
        } else {
            messages.push(line.to_string());
        }
    }
    for (name, status) in &results {
        match status.as_str() {
            "ok" => assert!(host.stdout.contains(&format!("test {name} ... ok\n"))),
            "FAILED" => assert!(host.stdout.contains(&format!("test {name} ... FAILED\n"))),
            "ignored" => assert!(host.skipped.contains(name)),
            other => panic!("unexpected status {other}"),
        }
    }
    for m in &messages {
        assert!(host.stderr.contains(&format!("{m}\n\n")), "missing message {m}");
    }
    let mut listed = String::new();
    for name in &closing {
        listed.push_str(&format!("    {name}\n"));
    }
    assert!(host.stdout.ends_with(&listed));
    if closing.is_empty() {
        assert!(!host.stdout.contains("failures:"));
    }
}

#[test]
fn all_passing_normal() {
    check(
        args([]),
        3,
        Conclusion { num_filtered_out: 0, num_passed: 3, num_failed: 0, num_ignored: 0 },
        "
            test barro ... ok
            test bar   ... ok
            test foo   ... ok
        ",
    );
}

#[test]
fn filter_one() {
    check(
        args(["foo"]),
        1,
        Conclusion { num_filtered_out: 2, num_passed: 1, num_failed: 0, num_ignored: 0 },
        "test foo ... ok",
    );
}

#[test]
fn filter_two() {
    check(
        args(["bar"]),
        2,
        Conclusion { num_filtered_out: 1, num_passed: 2, num_failed: 0, num_ignored: 0 },
        "
            test barro ... ok
            test bar   ... ok
        ",
    );
}

#[test]
fn filter_exact() {
    check(
        args(["bar", "--exact"]),
        1,
        Conclusion { num_filtered_out: 2, num_passed: 1, num_failed: 0, num_ignored: 0 },
        "test bar ... ok",
    );
}

#[test]
fn filter_two_and_skip() {
    check(
        args(["--skip", "barro", "bar"]),
        1,
        Conclusion { num_filtered_out: 2, num_passed: 1, num_failed: 0, num_ignored: 0 },
        "test bar ... ok",
    );
}

#[test]
fn skip_nothing() {
    check(
        args(["--skip", "peter"]),
        3,
        Conclusion { num_filtered_out: 0, num_passed: 3, num_failed: 0, num_ignored: 0 },
        "
            test barro ... ok
            test bar   ... ok
            test foo   ... ok
        ",
    );
}

#[test]
fn skip_two() {
    check(
        args(["--skip", "bar"]),
        1,
        Conclusion { num_filtered_out: 2, num_passed: 1, num_failed: 0, num_ignored: 0 },
        "test foo ... ok",
    );
}

#[test]
fn skip_exact() {
    check(
        args(["--exact", "--skip", "bar"]),
        2,
        Conclusion { num_filtered_out: 1, num_passed: 2, num_failed: 0, num_ignored: 0 },
        "
            test barro ... ok
            test foo   ... ok
        ",
    );
}
