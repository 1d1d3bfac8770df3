//! Comparing what came out with what was expected.
use crate::text::{ascending, insert_text, is_listed, one_order, same, texts};
use vstd::prelude::*;

verus! {

// ---------------------------------------------------------------------------
// Results
// ---------------------------------------------------------------------------

/// The outcome of one check.
pub struct CheckResult {
    pub id: String,
    pub passed: bool,
    /// What was found instead; empty where the check passed.
    pub detail: String,
}

/// The outcome of one check, as a mathematical value.
pub struct Check {
    pub id: Seq<char>,
    pub passed: bool,
    pub detail: Seq<char>,
}

impl DeepView for CheckResult {
    type V = Check;

    open spec fn deep_view(&self) -> Check {
        Check { id: self.id@, passed: self.passed, detail: self.detail@ }
    }
}

impl CheckResult {
    /// The same outcome.
    pub fn copy(&self) -> (r: CheckResult)
        ensures
            r == *self,
    {
        CheckResult { id: self.id.clone(), passed: self.passed, detail: self.detail.clone() }
    }
}

/// The outcome of one fixture with one extractor.
pub struct EvalCaseResult {
    pub fixture_name: String,
    pub dimension: String,
    pub description: String,
    pub checks: Vec<CheckResult>,
}

/// How many checks passed.
pub open spec fn passed_count(checks: Seq<CheckResult>) -> nat
    decreases checks.len(),
{
    if checks.len() == 0 {
        0
    } else {
        passed_count(checks.drop_last()) + if checks.last().passed {
            1nat
        } else {
            0
        }
    }
}

/// Whether a check with this id failed.
pub open spec fn failed(checks: Seq<CheckResult>, id: Seq<char>) -> bool {
    exists|i: int| 0 <= i < checks.len() && !(#[trigger] checks[i]).passed && checks[i].id@ == id
}

/// The ids of the checks that failed.
pub open spec fn failed_ids(checks: Seq<CheckResult>) -> Set<Seq<char>> {
    Set::new(|id: Seq<char>| failed(checks, id))
}

/// The ids of the checks that failed, in order and none of them twice.
pub open spec fn failed_list(checks: Seq<CheckResult>) -> Seq<Seq<char>> {
    choose|ids: Seq<Seq<char>>| ascending(ids) && #[trigger] ids.to_set() == failed_ids(checks)
}

/// The first check with an id.
pub open spec fn first_with(checks: Seq<CheckResult>, id: Seq<char>) -> Option<CheckResult>
    decreases checks.len(),
{
    if checks.len() == 0 {
        None
    } else if checks[0].id@ == id {
        Some(checks[0])
    } else {
        first_with(checks.drop_first(), id)
    }
}

proof fn passed_is_at_most_all(checks: Seq<CheckResult>)
    ensures
        passed_count(checks) <= checks.len(),
    decreases checks.len(),
{
    if checks.len() > 0 {
        passed_is_at_most_all(checks.drop_last());
    }
}

proof fn a_failed_check_is_there(checks: Seq<CheckResult>, id: Seq<char>)
    requires
        failed(checks, id),
    ensures
        first_with(checks, id) matches Some(c) && c.id@ == id,
    decreases checks.len(),
{
    let i = choose|i: int|
        0 <= i < checks.len() && !(#[trigger] checks[i]).passed && checks[i].id@ == id;
    if checks[0].id@ != id {
        let rest = checks.drop_first();
        assert(rest[i - 1] == checks[i]);
        assert(failed(rest, id));
        a_failed_check_is_there(rest, id);
    }
}

impl EvalCaseResult {
    /// How many checks passed.
    pub fn passed_checks(&self) -> (r: usize)
        ensures
            r == passed_count(self.checks@),
            r <= self.checks@.len(),
    {
        let ghost all = self.checks@;
        let mut n: usize = 0;
        let mut i: usize = 0;
        assert(all.take(0) =~= Seq::<CheckResult>::empty());
        while i < self.checks.len()
            invariant
                i <= self.checks@.len(),
                all == self.checks@,
                n <= i,
                n == passed_count(all.take(i as int)),
            decreases self.checks@.len() - i,
        {
            assert(all.take(i + 1).drop_last() =~= all.take(i as int));
            assert(all.take(i + 1).last() == all[i as int]);
            if self.checks[i].passed {
                n = n + 1;
            }
            i = i + 1;
        }
        assert(all.take(i as int) =~= all);
        n
    }

    /// The ids of the checks that failed, in order and none of them twice.
    pub fn failed_check_ids(&self) -> (r: Vec<String>)
        ensures
            texts(r@) == failed_list(self.checks@),
            ascending(texts(r@)),
            texts(r@).to_set() == failed_ids(self.checks@),
    {
        let ghost all = self.checks@;
        let mut out: Vec<String> = Vec::new();
        let mut i: usize = 0;
        assert(texts(out@).to_set() =~= failed_ids(all.take(0)));
        while i < self.checks.len()
            invariant
                i <= self.checks@.len(),
                all == self.checks@,
                ascending(texts(out@)),
                texts(out@).to_set() == failed_ids(all.take(i as int)),
            decreases self.checks@.len() - i,
        {
            let ghost upto = all.take(i + 1);
            let ghost before = all.take(i as int);
            let ghost c = all[i as int];
            if !self.checks[i].passed {
                insert_text(&mut out, self.checks[i].id.as_str());
            }
            proof {
                assert forall|id: Seq<char>| failed(upto, id) <==> (failed(before, id) || (
                !c.passed && c.id@ == id)) by {
                    if failed(upto, id) {
                        let k = choose|k: int|
                            0 <= k < upto.len() && !(#[trigger] upto[k]).passed && upto[k].id@
                                == id;
                        if k < i {
                            assert(before[k] == upto[k]);
                        }
                    }
                    if failed(before, id) {
                        let k = choose|k: int|
                            0 <= k < before.len() && !(#[trigger] before[k]).passed
                                && before[k].id@ == id;
                        assert(upto[k] == before[k]);
                    }
                    assert(upto[i as int] == c);
                }
                assert(texts(out@).to_set() =~= failed_ids(upto));
            }
            i = i + 1;
        }
        assert(all.take(i as int) =~= all);
        proof {
            one_order(texts(out@), failed_list(all));
        }
        out
    }

    /// Where the failed checks and a baseline differ.
    pub fn baseline_diff(&self, expected_failed_checks: &Vec<String>) -> (r: BaselineDiff)
        ensures
            is_diff(r, self.checks@, texts(expected_failed_checks@).to_set()),
            r.unexpected_failures@.len() <= failed_list(self.checks@).len(),
    {
        let actual = self.failed_check_ids();
        let ghost failed_set = failed_ids(self.checks@);
        let ghost expected_set = texts(expected_failed_checks@).to_set();
        let mut expected: Vec<String> = Vec::new();
        let mut i: usize = 0;
        let ghost wanted = texts(expected_failed_checks@);
        assert(texts(expected@).to_set() =~= wanted.take(0).to_set());
        while i < expected_failed_checks.len()
            invariant
                i <= expected_failed_checks@.len(),
                wanted == texts(expected_failed_checks@),
                ascending(texts(expected@)),
                texts(expected@).to_set() == wanted.take(i as int).to_set(),
            decreases expected_failed_checks@.len() - i,
        {
            insert_text(&mut expected, expected_failed_checks[i].as_str());
            proof {
                let before = wanted.take(i as int);
                let upto = wanted.take(i + 1);
                assert(upto =~= before.push(wanted[i as int]));
                assert(upto.to_set() =~= before.to_set().insert(wanted[i as int])) by {
                    assert forall|t: Seq<char>| upto.contains(t) <==> before.contains(t) || t
                        == wanted[i as int] by {
                        if before.contains(t) {
                            let k = choose|k: int| 0 <= k < before.len() && before[k] == t;
                            assert(upto[k] == t);
                        }
                        assert(upto[i as int] == wanted[i as int]);
                    }
                }
            }
            i = i + 1;
        }
        assert(wanted.take(i as int) =~= wanted);
        let ghost a = texts(actual@);
        let ghost e = texts(expected@);
        let mut unexpected_failures: Vec<CheckResult> = Vec::new();
        let mut j: usize = 0;
        assert(left_out(a.take(0), e) =~= Seq::<Seq<char>>::empty()) by {
            assert(a.take(0) =~= Seq::<Seq<char>>::empty());
        }
        while j < actual.len()
            invariant
                j <= actual@.len(),
                a == texts(actual@),
                e == texts(expected@),
                a.to_set() == failed_ids(self.checks@),
                are_firsts(unexpected_failures@, self.checks@, left_out(a.take(j as int), e)),
            decreases actual@.len() - j,
        {
            assert(a.take(j + 1).drop_last() =~= a.take(j as int));
            assert(a.take(j + 1).last() == a[j as int]);
            assert(a[j as int] == actual@[j as int]@);
            assert(a.contains(a[j as int]));
            assert(a.to_set().contains(a[j as int]));
            if !is_listed(&expected, actual[j].as_str()) {
                proof {
                    a_failed_check_is_there(self.checks@, a[j as int]);
                }
                match self.find(actual[j].as_str()) {
                    Some(c) => {
                        unexpected_failures.push(c);
                    },
                    None => {},
                }
            }
            j = j + 1;
        }
        assert(a.take(j as int) =~= a);
        let mut unexpected_passes: Vec<String> = Vec::new();
        let mut k: usize = 0;
        assert(e.take(0) =~= Seq::<Seq<char>>::empty());
        assert(texts(unexpected_passes@) =~= left_out(e.take(0), a));
        while k < expected.len()
            invariant
                k <= expected@.len(),
                a == texts(actual@),
                e == texts(expected@),
                texts(unexpected_passes@) == left_out(e.take(k as int), a),
            decreases expected@.len() - k,
        {
            assert(e.take(k + 1).drop_last() =~= e.take(k as int));
            assert(e.take(k + 1).last() == e[k as int]);
            assert(e[k as int] == expected@[k as int]@);
            if !is_listed(&actual, expected[k].as_str()) {
                let ghost before = texts(unexpected_passes@);
                unexpected_passes.push(expected[k].clone());
                assert(texts(unexpected_passes@) =~= before.push(e[k as int]));
            }
            k = k + 1;
        }
        assert(e.take(k as int) =~= e);
        proof {
            what_is_left_out(a, e);
            what_is_left_out(e, a);
            no_more_is_left_out(a, e);
            assert(check_ids(unexpected_failures@) =~= left_out(a, e));
            assert(left_out(a, e).to_set() =~= failed_set.difference(expected_set));
            assert(left_out(e, a).to_set() =~= expected_set.difference(failed_set));
        }
        BaselineDiff { unexpected_failures, unexpected_passes }
    }

    fn find(&self, id: &str) -> (r: Option<CheckResult>)
        ensures
            r == first_with(self.checks@, id@),
    {
        let ghost all = self.checks@;
        let mut i: usize = 0;
        assert(all.skip(0) =~= all);
        while i < self.checks.len()
            invariant
                i <= self.checks@.len(),
                all == self.checks@,
                first_with(all, id@) == first_with(all.skip(i as int), id@),
            decreases self.checks@.len() - i,
        {
            assert(all.skip(i as int)[0] == all[i as int]);
            assert(all.skip(i as int).drop_first() =~= all.skip(i + 1));
            if same(self.checks[i].id.as_str(), id) {
                return Some(self.checks[i].copy());
            }
            i = i + 1;
        }
        None
    }
}

/// What of a list is not in another, in order.
pub open spec fn left_out(a: Seq<Seq<char>>, b: Seq<Seq<char>>) -> Seq<Seq<char>>
    decreases a.len(),
{
    if a.len() == 0 {
        Seq::empty()
    } else if b.contains(a.last()) {
        left_out(a.drop_last(), b)
    } else {
        left_out(a.drop_last(), b).push(a.last())
    }
}

proof fn no_more_is_left_out(a: Seq<Seq<char>>, b: Seq<Seq<char>>)
    ensures
        left_out(a, b).len() <= a.len(),
    decreases a.len(),
{
    if a.len() > 0 {
        no_more_is_left_out(a.drop_last(), b);
    }
}

proof fn what_is_left_out(a: Seq<Seq<char>>, b: Seq<Seq<char>>)
    requires
        ascending(a),
    ensures
        ascending(left_out(a, b)),
        forall|x: Seq<char>|
            #[trigger] left_out(a, b).contains(x) <==> (a.contains(x) && !b.contains(x)),
    decreases a.len(),
{
    if a.len() > 0 {
        let front = a.drop_last();
        let last = a.last();
        let r = left_out(front, b);
        assert forall|i: int, j: int| 0 <= i < j < front.len() implies crate::text::before(
            #[trigger] front[i],
            #[trigger] front[j],
        ) by {
            assert(front[i] == a[i] && front[j] == a[j]);
        }
        what_is_left_out(front, b);
        assert forall|x: Seq<char>| a.contains(x) <==> front.contains(x) || x == last by {
            if a.contains(x) {
                let k = choose|k: int| 0 <= k < a.len() && a[k] == x;
                if k < front.len() {
                    assert(front[k] == x);
                }
            }
            if front.contains(x) {
                let k = choose|k: int| 0 <= k < front.len() && front[k] == x;
                assert(a[k] == x);
            }
            assert(a[a.len() - 1] == last);
        }
        if !b.contains(last) {
            let more = r.push(last);
            assert forall|i: int, j: int| 0 <= i < j < more.len() implies crate::text::before(
                #[trigger] more[i],
                #[trigger] more[j],
            ) by {
                if j == r.len() {
                    assert(r.contains(r[i]));
                    assert(front.contains(r[i]));
                    let k = choose|k: int| 0 <= k < front.len() && front[k] == r[i];
                    assert(a[k] == r[i]);
                    assert(crate::text::before(a[k], a[a.len() - 1]));
                } else {
                    assert(more[i] == r[i] && more[j] == r[j]);
                }
            }
            assert forall|x: Seq<char>| more.contains(x) <==> r.contains(x) || x == last by {
                if more.contains(x) {
                    let k = choose|k: int| 0 <= k < more.len() && more[k] == x;
                    if k < r.len() {
                        assert(r[k] == x);
                    }
                }
                if r.contains(x) {
                    let k = choose|k: int| 0 <= k < r.len() && r[k] == x;
                    assert(more[k] == x);
                }
                assert(more[r.len() as int] == last);
            }
        }
    }
}

/// The checks are the first ones with these ids, one by one.
pub open spec fn are_firsts(
    found: Seq<CheckResult>,
    checks: Seq<CheckResult>,
    ids: Seq<Seq<char>>,
) -> bool {
    &&& found.len() == ids.len()
    &&& forall|i: int|
        0 <= i < found.len() ==> first_with(checks, ids[i]) == Some(#[trigger] found[i])
            && found[i].id@ == ids[i]
}

/// Where the failed checks and a baseline differ.
pub struct BaselineDiff {
    /// They fail and are not in the baseline.
    pub unexpected_failures: Vec<CheckResult>,
    /// They are in the baseline and do not fail.
    pub unexpected_passes: Vec<String>,
}

/// The ids of checks.
pub open spec fn check_ids(checks: Seq<CheckResult>) -> Seq<Seq<char>> {
    checks.map_values(|c: CheckResult| c.id@)
}

/// The differences between the failed checks and a baseline, each side in order.
pub open spec fn is_diff(
    d: BaselineDiff,
    checks: Seq<CheckResult>,
    expected: Set<Seq<char>>,
) -> bool {
    let failures = check_ids(d.unexpected_failures@);
    let passes = texts(d.unexpected_passes@);
    &&& ascending(failures)
    &&& failures.to_set() == failed_ids(checks).difference(expected)
    &&& are_firsts(d.unexpected_failures@, checks, failures)
    &&& ascending(passes)
    &&& passes.to_set() == expected.difference(failed_ids(checks))
}

impl BaselineDiff {
    /// Whether there is no difference.
    pub fn is_clean(&self) -> (r: bool)
        ensures
            r == (self.unexpected_failures@.len() == 0 && self.unexpected_passes@.len() == 0),
    {
        self.unexpected_failures.len() == 0 && self.unexpected_passes.len() == 0
    }
}

/// The outcomes of a whole corpus.
pub struct EvalReport {
    pub cases: Vec<EvalCaseResult>,
}

/// How many checks there are.
pub open spec fn all_checks(cases: Seq<EvalCaseResult>) -> nat
    decreases cases.len(),
{
    if cases.len() == 0 {
        0
    } else {
        all_checks(cases.drop_last()) + cases.last().checks@.len()
    }
}

/// How many checks passed.
pub open spec fn all_passed(cases: Seq<EvalCaseResult>) -> nat
    decreases cases.len(),
{
    if cases.len() == 0 {
        0
    } else {
        all_passed(cases.drop_last()) + passed_count(cases.last().checks@)
    }
}

/// How many fixtures passed every check.
pub open spec fn clean_cases(cases: Seq<EvalCaseResult>) -> nat
    decreases cases.len(),
{
    if cases.len() == 0 {
        0
    } else {
        clean_cases(cases.drop_last()) + if failed_ids(cases.last().checks@) =~= Set::empty() {
            1nat
        } else {
            0
        }
    }
}

proof fn sums_grow(cases: Seq<EvalCaseResult>, n: int)
    requires
        0 <= n <= cases.len(),
    ensures
        all_checks(cases.take(n)) <= all_checks(cases),
        all_passed(cases.take(n)) <= all_checks(cases.take(n)),
    decreases cases.len() - n, n,
{
    if n == cases.len() {
        assert(cases.take(n) =~= cases);
    } else {
        assert(cases.take(n + 1).drop_last() =~= cases.take(n));
        sums_grow(cases, n + 1);
    }
    no_more_pass_than_there_are(cases.take(n));
}

/// No more checks pass than there are.
pub proof fn no_more_pass_than_there_are(cases: Seq<EvalCaseResult>)
    ensures
        all_passed(cases) <= all_checks(cases),
    decreases cases.len(),
{
    if cases.len() > 0 {
        no_more_pass_than_there_are(cases.drop_last());
        passed_is_at_most_all(cases.last().checks@);
    }
}

impl EvalReport {
    /// The outcomes of a corpus.
    pub fn new(cases: Vec<EvalCaseResult>) -> (r: EvalReport)
        ensures
            r.cases == cases,
    {
        EvalReport { cases }
    }

    /// How many checks there are.
    pub fn total_checks(&self) -> (r: usize)
        requires
            all_checks(self.cases@) <= usize::MAX,
        ensures
            r == all_checks(self.cases@),
    {
        let ghost all = self.cases@;
        let mut n: usize = 0;
        let mut i: usize = 0;
        assert(all.take(0) =~= Seq::<EvalCaseResult>::empty());
        while i < self.cases.len()
            invariant
                i <= self.cases@.len(),
                all == self.cases@,
                all_checks(all) <= usize::MAX,
                n == all_checks(all.take(i as int)),
            decreases self.cases@.len() - i,
        {
            assert(all.take(i + 1).drop_last() =~= all.take(i as int));
            assert(all.take(i + 1).last() == all[i as int]);
            proof {
                sums_grow(all, i + 1);
            }
            n = n + self.cases[i].checks.len();
            i = i + 1;
        }
        assert(all.take(i as int) =~= all);
        n
    }

    /// How many checks passed.
    pub fn passed_checks(&self) -> (r: usize)
        requires
            all_checks(self.cases@) <= usize::MAX,
        ensures
            r == all_passed(self.cases@),
    {
        let ghost all = self.cases@;
        let mut n: usize = 0;
        let mut i: usize = 0;
        assert(all.take(0) =~= Seq::<EvalCaseResult>::empty());
        while i < self.cases.len()
            invariant
                i <= self.cases@.len(),
                all == self.cases@,
                all_checks(all) <= usize::MAX,
                n == all_passed(all.take(i as int)),
            decreases self.cases@.len() - i,
        {
            assert(all.take(i + 1).drop_last() =~= all.take(i as int));
            assert(all.take(i + 1).last() == all[i as int]);
            proof {
                sums_grow(all, i + 1);
            }
            n = n + self.cases[i].passed_checks();
            i = i + 1;
        }
        assert(all.take(i as int) =~= all);
        n
    }

    /// How many fixtures passed every check.
    pub fn fully_passed_cases(&self) -> (r: usize)
        ensures
            r == clean_cases(self.cases@),
    {
        let ghost all = self.cases@;
        let mut n: usize = 0;
        let mut i: usize = 0;
        assert(all.take(0) =~= Seq::<EvalCaseResult>::empty());
        while i < self.cases.len()
            invariant
                i <= self.cases@.len(),
                all == self.cases@,
                n <= i,
                n == clean_cases(all.take(i as int)),
            decreases self.cases@.len() - i,
        {
            assert(all.take(i + 1).drop_last() =~= all.take(i as int));
            assert(all.take(i + 1).last() == all[i as int]);
            let ids = self.cases[i].failed_check_ids();
            assert(texts(ids@).len() == ids@.len());
            if ids.len() == 0 {
                assert(texts(ids@).to_set() =~= Set::<Seq<char>>::empty());
                n = n + 1;
            } else {
                assert(texts(ids@).contains(texts(ids@)[0]));
                assert(texts(ids@).to_set().contains(texts(ids@)[0]));
            }
            i = i + 1;
        }
        assert(all.take(i as int) =~= all);
        n
    }
}

// ---------------------------------------------------------------------------
// Laws
// ---------------------------------------------------------------------------

/// Every check passed exactly where none failed.
proof fn all_pass_where_none_fails(checks: Seq<CheckResult>)
    ensures
        passed_count(checks) <= checks.len(),
        passed_count(checks) == checks.len() <==> failed_ids(checks) =~= Set::empty(),
    decreases checks.len(),
{
    if checks.len() == 0 {
        assert(failed_ids(checks) =~= Set::empty());
    } else {
        let front = checks.drop_last();
        all_pass_where_none_fails(front);
        if failed_ids(front) =~= Set::empty() && checks.last().passed {
            assert forall|id: Seq<char>| !failed_ids(checks).contains(id) by {
                if failed(checks, id) {
                    let i = choose|i: int|
                        0 <= i < checks.len() && !(#[trigger] checks[i]).passed && checks[i].id@
                            == id;
                    assert(front[i] == checks[i]);
                    assert(failed_ids(front).contains(id));
                }
            }
        } else if !checks.last().passed {
            assert(checks[checks.len() - 1] == checks.last());
            assert(failed_ids(checks).contains(checks.last().id@));
        } else {
            let id = choose|id: Seq<char>| failed_ids(front).contains(id);
            let i = choose|i: int|
                0 <= i < front.len() && !(#[trigger] front[i]).passed && front[i].id@ == id;
            assert(checks[i] == front[i]);
            assert(failed_ids(checks).contains(id));
        }
    }
}

/// No more checks of a corpus pass than there are, and all of them pass exactly where every
/// fixture passed every check.
pub proof fn all_checks_pass_where_every_case_does(cases: Seq<EvalCaseResult>)
    ensures
        all_passed(cases) <= all_checks(cases),
        clean_cases(cases) <= cases.len(),
        all_passed(cases) == all_checks(cases) <==> clean_cases(cases) == cases.len(),
    decreases cases.len(),
{
    if cases.len() > 0 {
        all_checks_pass_where_every_case_does(cases.drop_last());
        all_pass_where_none_fails(cases.last().checks@);
    }
}

/// A difference is clean exactly where the checks that failed are the baseline, no more and no
/// fewer.
pub proof fn clean_means_the_baseline_failed(
    d: BaselineDiff,
    checks: Seq<CheckResult>,
    expected: Set<Seq<char>>,
)
    requires
        is_diff(d, checks, expected),
    ensures
        (d.unexpected_failures@.len() == 0 && d.unexpected_passes@.len() == 0) <==> failed_ids(
            checks,
        ) == expected,
{
    let failures = check_ids(d.unexpected_failures@);
    let passes = texts(d.unexpected_passes@);
    let actual = failed_ids(checks);
    if d.unexpected_failures@.len() == 0 && d.unexpected_passes@.len() == 0 {
        assert forall|x: Seq<char>| actual.contains(x) <==> expected.contains(x) by {
            if actual.contains(x) && !expected.contains(x) {
                assert(failures.to_set().contains(x));
            }
            if expected.contains(x) && !actual.contains(x) {
                assert(passes.to_set().contains(x));
            }
        }
        assert(actual =~= expected);
    }
    if actual == expected {
        if failures.len() > 0 {
            assert(failures.contains(failures[0]));
            assert(failures.to_set().contains(failures[0]));
        }
        if passes.len() > 0 {
            assert(passes.contains(passes[0]));
            assert(passes.to_set().contains(passes[0]));
        }
    }
}

/// What failed beyond the baseline really failed, and what is said to pass really does not fail.
pub proof fn a_difference_is_what_it_says(
    d: BaselineDiff,
    checks: Seq<CheckResult>,
    expected: Set<Seq<char>>,
    i: int,
)
    requires
        is_diff(d, checks, expected),
    ensures
        0 <= i < d.unexpected_failures@.len() ==> failed(checks, d.unexpected_failures@[i].id@)
            && !expected.contains(d.unexpected_failures@[i].id@),
        0 <= i < d.unexpected_passes@.len() ==> expected.contains(d.unexpected_passes@[i]@)
            && !failed(checks, d.unexpected_passes@[i]@),
{
    let failures = check_ids(d.unexpected_failures@);
    let passes = texts(d.unexpected_passes@);
    if 0 <= i < d.unexpected_failures@.len() {
        assert(failures[i] == d.unexpected_failures@[i].id@);
        assert(failures.contains(failures[i]));
        assert(failures.to_set().contains(failures[i]));
    }
    if 0 <= i < d.unexpected_passes@.len() {
        assert(passes[i] == d.unexpected_passes@[i]@);
        assert(passes.contains(passes[i]));
        assert(passes.to_set().contains(passes[i]));
    }
}

} // verus!
