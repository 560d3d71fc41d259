//! The plain list of tests that `--list` prints.

use vstd::prelude::*;
use vstd::string::*;

use crate::args::{name_reason, Arguments};
use crate::trial::TestInfo;

verus! {

/// The test appears in the list: it passes the filters and skip patterns,
/// and, when only ignored tests are asked for, it is marked ignored. Tests
/// marked ignored are listed otherwise too.
pub open spec fn listed(args: Arguments, t: TestInfo) -> bool {
    name_reason(args, t.name@) is None && (!args.ignored || t.is_ignored)
}

/// One line `<name>: test` per listed test, in order.
pub open spec fn list_text(args: Arguments, tests: Seq<TestInfo>) -> Seq<char>
    decreases tests.len(),
{
    if tests.len() == 0 {
        Seq::empty()
    } else {
        list_text(args, tests.drop_last()) + if listed(args, tests.last()) {
            tests.last().name@ + ": test\n"@
        } else {
            Seq::empty()
        }
    }
}

/// The list of the tests that the options select, one line per test.
pub fn write_list(args: &Arguments, tests: &Vec<TestInfo>) -> (r: String)
    ensures
        r@ == list_text(*args, tests@),
{
    let mut out = String::new();
    let mut i: usize = 0;
    while i < tests.len()
        invariant
            i <= tests@.len(),
            out@ == list_text(*args, tests@.subrange(0, i as int)),
        decreases tests@.len() - i,
    {
        let t = &tests[i];
        proof {
            let s = tests@.subrange(0, i + 1);
            assert(s.drop_last() == tests@.subrange(0, i as int));
            assert(s.last() == tests@[i as int]);
        }
        let shown = !args.name_filtered_out(t.name.as_str()) && (!args.ignored || t.is_ignored);
        if shown {
            out.append(t.name.as_str());
            out.append(": test\n");
        }
        assert(out@ =~= list_text(*args, tests@.subrange(0, i + 1)));
        i += 1;
    }
    assert(tests@.subrange(0, i as int) == tests@);
    out
}

} // verus!
