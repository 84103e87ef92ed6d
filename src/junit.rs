//! Summarising a test run's event stream as JUnit test cases.
use vstd::prelude::*;

verus! {

/// An event about one test.
pub enum TestEventType {
    Started { name: String },
    Failed { name: String },
    Succeeded { name: String },
}

/// One line of a test run's machine-readable output.
pub enum TestReportMessage {
    Test { event: TestEventType },
    Suite,
}

#[derive(Clone, Copy, Debug, PartialEq, Eq, Structural)]
pub enum TestStatus {
    Passed,
    Failed,
    Skipped,
    Unknown,
}

#[derive(Debug, PartialEq)]
pub struct Failure {
    pub message: String,
}

#[derive(Debug, PartialEq)]
pub struct TestCase {
    pub name: String,
    pub failure: Option<Failure>,
}

#[derive(Debug, PartialEq)]
pub struct TestSuite {
    pub testcases: Vec<TestCase>,
}

#[derive(Debug, PartialEq)]
pub struct TestSuites {
    pub testsuites: Vec<TestSuite>,
}

/// The test and the status that a message reports, if it is about a test.
pub open spec fn reported(m: TestReportMessage) -> Option<(Seq<char>, TestStatus)> {
    match m {
        TestReportMessage::Test { event } => match event {
            TestEventType::Started { name } => Some((name@, TestStatus::Unknown)),
            TestEventType::Failed { name } => Some((name@, TestStatus::Failed)),
            TestEventType::Succeeded { name } => Some((name@, TestStatus::Passed)),
        },
        TestReportMessage::Suite => None,
    }
}

pub open spec fn has_name(t: Seq<(Seq<char>, TestStatus)>, n: Seq<char>) -> bool {
    exists|i: int| 0 <= i < t.len() && t[i].0 == n
}

/// The table with the status of `n` set to `s`: in place if `n` is there,
/// at the end otherwise.
pub open spec fn record(t: Seq<(Seq<char>, TestStatus)>, n: Seq<char>, s: TestStatus) -> Seq<
    (Seq<char>, TestStatus),
> {
    if has_name(t, n) {
        t.map_values(|e: (Seq<char>, TestStatus)| if e.0 == n { (n, s) } else { e })
    } else {
        t.push((n, s))
    }
}

/// Each test of the run with the status of its last event, in the order in
/// which the tests first appear.
pub open spec fn status_table(msgs: Seq<TestReportMessage>) -> Seq<(Seq<char>, TestStatus)>
    decreases msgs.len(),
{
    if msgs.len() == 0 {
        Seq::empty()
    } else {
        let t = status_table(msgs.drop_last());
        match reported(msgs.last()) {
            Some((n, s)) => record(t, n, s),
            None => t,
        }
    }
}

pub open spec fn names_unique(t: Seq<(Seq<char>, TestStatus)>) -> bool {
    forall|i: int, j: int| 0 <= i < j < t.len() ==> t[i].0 != t[j].0
}

/// The test case of one table entry: named after the test, failed when its
/// last event was a failure.
pub open spec fn case_matches(c: TestCase, e: (Seq<char>, TestStatus)) -> bool {
    &&& c.name@ == e.0
    &&& (c.failure is Some <==> e.1 == TestStatus::Failed)
    &&& c.failure matches Some(f) ==> f.message@ == "failed"@
}

fn event_parts(m: &TestReportMessage) -> (r: Option<(String, TestStatus)>)
    ensures
        match reported(*m) {
            Some((n, s)) => r matches Some(p) && p.0@ == n && p.1 == s,
            None => r is None,
        },
{
    match m {
        TestReportMessage::Test { event } => match event {
            TestEventType::Started { name } => Some((name.clone(), TestStatus::Unknown)),
            TestEventType::Failed { name } => Some((name.clone(), TestStatus::Failed)),
            TestEventType::Succeeded { name } => Some((name.clone(), TestStatus::Passed)),
        },
        TestReportMessage::Suite => None,
    }
}

pub open spec fn table_view(t: Seq<(String, TestStatus)>) -> Seq<(Seq<char>, TestStatus)> {
    t.map_values(|e: (String, TestStatus)| (e.0@, e.1))
}

/// Sets the status of `name` in `table`.
fn record_status(table: &mut Vec<(String, TestStatus)>, name: String, status: TestStatus)
    requires
        names_unique(table_view(old(table)@)),
    ensures
        table_view(final(table)@) == record(table_view(old(table)@), name@, status),
        names_unique(table_view(final(table)@)),
{
    let ghost t0 = table_view(table@);
    let mut i: usize = 0;
    while i < table.len()
        invariant
            i <= table@.len(),
            table_view(table@) == t0,
            t0 == table_view(old(table)@),
            names_unique(t0),
            forall|k: int| 0 <= k < i ==> t0[k].0 != name@,
        decreases table@.len() - i,
    {
        if table[i].0 == name {
            let ghost old_t = table@;
            table.set(i, (name, status));
            proof {
                assert(t0[i as int] == (old_t[i as int].0@, old_t[i as int].1));
                assert(has_name(t0, name@) && t0[i as int].0 == name@);
                assert(table_view(table@) =~= record(t0, name@, status)) by {
                    assert forall|k: int| 0 <= k < t0.len() implies #[trigger] table_view(table@)[k]
                        == record(t0, name@, status)[k] by {
                        if k != i {
                            assert(t0[k].0 != name@);
                        }
                    }
                }
            }
            return;
        }
        i = i + 1;
    }
    table.push((name, status));
    proof {
        assert(!has_name(t0, name@));
        assert(table_view(table@) =~= t0.push((name@, status)));
    }
}

/// The test cases of a run: one per test, in the order in which the tests
/// first appear, failed where the last event of the test was a failure.
pub fn convert_to_junit(inp: &Vec<TestReportMessage>) -> (r: TestSuites)
    ensures
        r.testsuites@.len() == 1,
        r.testsuites@[0].testcases@.len() == status_table(inp@).len(),
        forall|i: int|
            0 <= i < status_table(inp@).len() ==> case_matches(
                #[trigger] r.testsuites@[0].testcases@[i],
                status_table(inp@)[i],
            ),
{
    let mut table: Vec<(String, TestStatus)> = Vec::new();
    let mut i: usize = 0;
    while i < inp.len()
        invariant
            i <= inp@.len(),
            table_view(table@) == status_table(inp@.subrange(0, i as int)),
            names_unique(table_view(table@)),
        decreases inp@.len() - i,
    {
        assert(inp@.subrange(0, i as int + 1).drop_last() == inp@.subrange(0, i as int));
        match event_parts(&inp[i]) {
            Some((name, status)) => record_status(&mut table, name, status),
            None => {},
        }
        i = i + 1;
    }
    assert(inp@.subrange(0, inp@.len() as int) == inp@);
    proof {
        reveal_strlit("failed");
    }
    let mut testcases: Vec<TestCase> = Vec::new();
    let mut k: usize = 0;
    while k < table.len()
        invariant
            k <= table@.len(),
            table_view(table@) == status_table(inp@),
            testcases@.len() == k,
            forall|m: int| 0 <= m < k ==> case_matches(#[trigger] testcases@[m], table_view(table@)[m]),
        decreases table@.len() - k,
    {
        let failure = match table[k].1 {
            TestStatus::Failed => Some(Failure { message: "failed".to_owned() }),
            _ => None,
        };
        testcases.push(TestCase { name: table[k].0.clone(), failure });
        k = k + 1;
    }
    TestSuites { testsuites: vec![TestSuite { testcases }] }
}

} // verus!
