use std::collections::HashMap;
use std::future::Future;
use std::pin::Pin;

use async_test::printer::write_list;
use async_test::reporter::ReporterMode;
use async_test::{
    run, Arguments, Conclusion, FixtureTable, Host, Outcome, ReporterOutput, TestEvent, TestInfo,
    TestList, TestReporter, TestReporterBuilder, Tester, Trial,
};

type BoxFut = Pin<Box<dyn Future<Output = ()> + Send + 'static>>;
type Body = Box<dyn Fn() -> BoxFut>;

fn body<Fut: Future<Output = ()> + Send + 'static>(f: impl Fn() -> Fut + 'static) -> Body {
    Box::new(move || Box::pin(f()) as BoxFut)
}

struct TestHost {
    rt: tokio::runtime::Runtime,
    reporter: TestReporter,
    stdout: String,
    stderr: String,
    skipped: Vec<String>,
    clock: u64,
}

impl TestHost {
    fn new() -> Self {
        let list = TestList { tests: vec![], skip_count: 0 };
        let mut builder = TestReporterBuilder::new();
        builder.set_imitate_cargo(true);
        let reporter = builder.build(&list, ReporterOutput::Stderr);
        assert_eq!(reporter.mode(), ReporterMode::ImitateCargo);
        TestHost {
            rt: tokio::runtime::Builder::new_current_thread().build().unwrap(),
            reporter,
            stdout: String::new(),
            stderr: String::new(),
            skipped: vec![],
            clock: 0,
        }
    }
}

impl Host<Body, ()> for TestHost {
    fn now_millis(&mut self) -> u64 {
        self.clock += 1;
        self.clock
    }

    fn init_fixture(&mut self, _key: usize) {}

    fn fixture_name(&mut self, key: usize) -> String {
        format!("fixture{key}")
    }

    fn run_test(&mut self, _info: &TestInfo, runner: &Body, _fixtures: &FixtureTable<()>) -> Outcome {
        let fut = runner();
        match self.rt.block_on(async move { tokio::spawn(fut).await }) {
            Ok(()) => Outcome::Passed,
            Err(e) => {
                let payload = e.try_into_panic().ok().and_then(|p| {
                    p.downcast_ref::<&str>()
                        .map(|s| s.to_string())
                        .or_else(|| p.downcast_ref::<String>().cloned())
                });
                Outcome::from_abnormal_exit(payload)
            }
        }
    }

    fn report(&mut self, event: TestEvent) {
        if let TestEvent::TestSkipped { test_instance, .. } = &event {
            self.skipped.push(test_instance.name.clone());
        }
        let r = self.reporter.report_event(&event);
        self.stdout.push_str(&r.stdout);
        self.stderr.push_str(&r.stderr);
    }
}

fn tests() -> Tester<Body> {
    let mut tester = Tester::new(0);
    tester.add(Trial::test("cat".to_string(), body(|| async {}))).unwrap();
    tester
        .add(Trial::test("dog".to_string(), body(|| async { panic!("was not a good boy") })))
        .unwrap();
    tester.add(Trial::test("fox".to_string(), body(|| async {}))).unwrap();
    tester
        .add(Trial::test("bunny".to_string(), body(|| async { panic!("jumped too high") })))
        .unwrap();
    tester
        .add(Trial::test("frog".to_string(), body(|| async {})).with_ignored_flag(true))
        .unwrap();
    tester
        .add(
            Trial::test("owl".to_string(), body(|| async { panic!("broke neck") }))
                .with_ignored_flag(true),
        )
        .unwrap();
    tester
        .add(Trial::test("fly".to_string(), body(|| async {})).with_ignored_flag(true))
        .unwrap();
    tester
        .add(
            Trial::test("bear".to_string(), body(|| async { panic!("no honey") }))
                .with_ignored_flag(true),
        )
        .unwrap();
    tester
}

fn args<const N: usize>(list: [&str; N]) -> Arguments {
    let mut a = Arguments::default();
    let mut i = 0;
    while i < N {
        match list[i] {
            "--test" => a.test = true,
            "--include-ignored" => a.include_ignored = true,
            "--ignored" => a.ignored = true,
            "--exact" => a.exact = true,
            "--list" => a.list = true,
            "--skip" => {
                i += 1;
                a.skip.push(list[i].to_string());
            }
            other => a.filter.push(other.to_string()),
        }
        i += 1;
    }
    a
}

/// Runs the tests and checks the conclusion, the number of tests listed
/// (run or ignored), and the lines of the expected output: the result of
/// each test, each failure message, and the closing list of failures.
fn check(args: Arguments, num_listed: usize, expected: Conclusion, out: &str) {
    let mut host = TestHost::new();
    let c = run(&args, tests(), &mut host);
    assert_eq!(c, expected);
    assert_eq!(c.num_passed + c.num_failed + c.num_ignored, num_listed);

    let mut results: HashMap<String, String> = HashMap::new();
    let mut messages: Vec<String> = vec![];
    let mut closing: Vec<String> = vec![];
    let mut failures_seen = 0;
    for line in out.lines().map(str::trim).filter(|l| !l.is_empty()) {
        if line == "failures:" {
            failures_seen += 1;
        } else if line.starts_with("test ") {
            let words: Vec<&str> = line.split_whitespace().collect();
            let status = words[words.len() - 1];
            let name = words[words.len() - 3];
            results.insert(name.to_string(), status.to_string());
        } else if line.starts_with("---- ") {
        } else if failures_seen == 2 {
            closing.push(line.to_string());
        } else {
            messages.push(line.to_string());
        }
    }
    for (name, status) in &results {
        match status.as_str() {
            "ok" => assert!(host.stdout.contains(&format!("test {name} ... ok\n"))),
            "FAILED" => assert!(host.stdout.contains(&format!("test {name} ... FAILED\n"))),
            "ignored" => assert!(host.skipped.contains(name)),
            other => panic!("unexpected status {other}"),
        }
    }
    for m in &messages {
        assert!(host.stderr.contains(&format!("{m}\n\n")), "missing message {m}");
    }
    let mut listed = String::new();
    for name in &closing {
        listed.push_str(&format!("    {name}\n"));
    }
    assert!(host.stdout.ends_with(&listed));
    if closing.is_empty() {
        assert!(!host.stdout.contains("failures:"));
    }
}

#[test]
fn mixed_bag_normal() {
    check(
        args([]),
        8,
        Conclusion { num_filtered_out: 0, num_passed: 2, num_failed: 2, num_ignored: 4 },
        "
            test          cat   ... ok
            test          dog   ... FAILED
            test [apple]  fox   ... ok
            test [apple]  bunny ... FAILED
            test          frog  ... ignored
            test          owl   ... ignored
            test [banana] fly   ... ignored
            test [banana] bear  ... ignored

            failures:

            ---- dog ----
            was not a good boy

            ---- bunny ----
            jumped too high


            failures:
                dog
                bunny
        ",
    );
}

#[test]
fn test_mode() {
    check(
        args(["--test"]),
        8,
        Conclusion { num_filtered_out: 0, num_passed: 2, num_failed: 2, num_ignored: 4 },
        "
            test          cat   ... ok
            test          dog   ... FAILED
            test [apple]  fox   ... ok
            test [apple]  bunny ... FAILED
            test          frog  ... ignored
            test          owl   ... ignored
            test [banana] fly   ... ignored
            test [banana] bear  ... ignored

            failures:

            ---- dog ----
            was not a good boy

            ---- bunny ----
            jumped too high


            failures:
                dog
                bunny
        ",
    );
}

#[test]
fn filter_c() {
    check(
        args(["c"]),
        1,
        Conclusion { num_filtered_out: 7, num_passed: 1, num_failed: 0, num_ignored: 0 },
        "
            test cat ... ok
        ",
    );
}

#[test]
fn filter_o_test() {
    check(
        args(["--test", "o"]),
        4,
        Conclusion { num_filtered_out: 4, num_passed: 1, num_failed: 1, num_ignored: 2 },
        "
            test         dog  ... FAILED
            test [apple] fox  ... ok
            test         frog ... ignored
            test         owl  ... ignored

            failures:

            ---- dog ----
            was not a good boy


            failures:
                dog
        ",
    );
}

#[test]
fn filter_o_test_include_ignored() {
    check(
        args(["--test", "--include-ignored", "o"]),
        4,
        Conclusion { num_filtered_out: 4, num_passed: 2, num_failed: 2, num_ignored: 0 },
        "
            test         dog  ... FAILED
            test [apple] fox  ... ok
            test         frog ... ok
            test         owl  ... FAILED

            failures:

            ---- dog ----
            was not a good boy

            ---- owl ----
            broke neck


            failures:
                dog
                owl
        ",
    );
}

#[test]
fn filter_o_test_ignored() {
    check(
        args(["--test", "--ignored", "o"]),
        2,
        Conclusion { num_filtered_out: 6, num_passed: 1, num_failed: 1, num_ignored: 0 },
        "
            test frog ... ok
            test owl  ... FAILED

            failures:

            ---- owl ----
            broke neck


            failures:
                owl
        ",
    );
}

#[test]
fn normal_include_ignored() {
    check(
        args(["--include-ignored"]),
        8,
        Conclusion { num_filtered_out: 0, num_passed: 4, num_failed: 4, num_ignored: 0 },
        "
            test          cat   ... ok
            test          dog   ... FAILED
            test [apple]  fox   ... ok
            test [apple]  bunny ... FAILED
            test          frog  ... ok
            test          owl   ... FAILED
            test [banana] fly   ... ok
            test [banana] bear  ... FAILED

            failures:

            ---- dog ----
            was not a good boy

            ---- bunny ----
            jumped too high

            ---- owl ----
            broke neck

            ---- bear ----
            no honey


            failures:
                dog
                bunny
                owl
                bear
        ",
    );
}

#[test]
fn normal_ignored() {
    check(
        args(["--ignored"]),
        4,
        Conclusion { num_filtered_out: 4, num_passed: 2, num_failed: 2, num_ignored: 0 },
        "
            test          frog ... ok
            test          owl  ... FAILED
            test [banana] fly  ... ok
            test [banana] bear ... FAILED

            failures:

            ---- owl ----
            broke neck

            ---- bear ----
            no honey


            failures:
                owl
                bear
        ",
    );
}

#[test]
fn lots_of_flags() {
    check(
        args(["--include-ignored", "--skip", "g", "--test", "o"]),
        2,
        Conclusion { num_filtered_out: 6, num_passed: 1, num_failed: 1, num_ignored: 0 },
        "
            test [apple] fox ... ok
            test         owl ... FAILED

            failures:

            ---- owl ----
            broke neck


            failures:
                owl
        ",
    );
}

/// The list that `--list` prints, with the `[kind] ` labels of the expected
/// text taken out: tests here have no kind.
fn do_list(args: Arguments) -> (Conclusion, String) {
    assert!(args.list);
    let (infos, _) = tests().finish();
    (Conclusion::empty(), write_list(&args, &infos))
}

fn assert_log(out: &str, expected: &str) {
    let mut want = String::new();
    for line in expected.lines().map(str::trim).filter(|l| !l.is_empty()) {
        let line = match line.strip_prefix('[') {
            Some(rest) => rest.split_once("] ").map(|(_, r)| r).unwrap_or(line),
            None => line,
        };
        want.push_str(line);
        want.push('\n');
    }
    assert_eq!(out, want);
}

#[test]
fn list() {
    let (c, out) = do_list(args(["--list"]));
    assert_log(
        &out,
        "
        cat: test
        dog: test
        [apple] fox: test
        [apple] bunny: test
        frog: test
        owl: test
        [banana] fly: test
        [banana] bear: test
    ",
    );
    assert_eq!(c, Conclusion { num_filtered_out: 0, num_passed: 0, num_failed: 0, num_ignored: 0 });
}

#[test]
fn list_ignored() {
    let (c, out) = do_list(args(["--list", "--ignored"]));
    assert_log(
        &out,
        "
        frog: test
        owl: test
        [banana] fly: test
        [banana] bear: test
    ",
    );
    assert_eq!(c, Conclusion { num_filtered_out: 0, num_passed: 0, num_failed: 0, num_ignored: 0 });
}

#[test]
fn list_with_filter() {
    let (c, out) = do_list(args(["--list", "a"]));
    assert_log(
        &out,
        "
        cat: test
        [banana] bear: test
    ",
    );
    assert_eq!(c, Conclusion { num_filtered_out: 0, num_passed: 0, num_failed: 0, num_ignored: 0 });
}
