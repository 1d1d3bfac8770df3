//! The command line of the measurement: its arguments, the files of a corpus, and its reports.
use crate::agent_runtime::capabilities::{refused, validate_runtime_overrides};
use crate::agent_runtime::{AgentRuntimeOverrides, Overrides};
use crate::commands::agents::{agent_named, agent_of};
use crate::context::launch::CliExtractor;
use crate::context_eval::evaluator::{
    all_checks, all_passed, clean_cases, failed_list, no_more_pass_than_there_are, passed_count,
    BaselineDiff, CheckResult, EvalCaseResult, EvalReport,
};
use crate::domain::copy_text;
use crate::error::{other, AppError, Fault};
use crate::paths::{named_with, with_extension};
use crate::text::{
    ascending, chars_of, decimal, decimal_of, join, joined, same, texts,
};
use vstd::prelude::*;

verus! {

// ---------------------------------------------------------------------------
// Arguments
// ---------------------------------------------------------------------------

/// What finds the changes in a conversation.
#[derive(Clone, Copy, Debug, PartialEq, Eq, Structural)]
pub enum ExtractorKind {
    Heuristic,
    Cli,
}

/// What is measured.
pub struct Args {
    pub extractor: ExtractorKind,
    pub agent: Option<String>,
    pub model: Option<String>,
    pub provider: Option<String>,
    pub effort: Option<String>,
    pub corpus: Option<String>,
    pub case: Option<String>,
}

/// What is measured, as a mathematical value.
pub struct Flags {
    pub extractor: ExtractorKind,
    pub agent: Option<Seq<char>>,
    pub model: Option<Seq<char>>,
    pub provider: Option<Seq<char>>,
    pub effort: Option<Seq<char>>,
    pub corpus: Option<Seq<char>>,
    pub case: Option<Seq<char>>,
}

impl DeepView for Args {
    type V = Flags;

    open spec fn deep_view(&self) -> Flags {
        Flags {
            extractor: self.extractor,
            agent: self.agent.deep_view(),
            model: self.model.deep_view(),
            provider: self.provider.deep_view(),
            effort: self.effort.deep_view(),
            corpus: self.corpus.deep_view(),
            case: self.case.deep_view(),
        }
    }
}

impl Flags {
    /// Nothing was said.
    pub open spec fn unset() -> Flags {
        Flags {
            extractor: ExtractorKind::Heuristic,
            agent: None,
            model: None,
            provider: None,
            effort: None,
            corpus: None,
            case: None,
        }
    }

    /// What is measured when one more flag is read; nothing where no such flag takes a text.
    pub open spec fn with(self, flag: Seq<char>, value: Seq<char>) -> Option<Flags> {
        if flag == "--agent"@ {
            Some(Flags { agent: Some(value), ..self })
        } else if flag == "--model"@ {
            Some(Flags { model: Some(value), ..self })
        } else if flag == "--provider"@ {
            Some(Flags { provider: Some(value), ..self })
        } else if flag == "--effort"@ {
            Some(Flags { effort: Some(value), ..self })
        } else if flag == "--corpus"@ {
            Some(Flags { corpus: Some(value), ..self })
        } else if flag == "--case"@ {
            Some(Flags { case: Some(value), ..self })
        } else {
            None
        }
    }
}

impl Default for Args {
    fn default() -> (r: Args)
        ensures
            r.deep_view() == Flags::unset(),
    {
        Args {
            extractor: ExtractorKind::Heuristic,
            agent: None,
            model: None,
            provider: None,
            effort: None,
            corpus: None,
            case: None,
        }
    }
}

/// What a command line asks for.
pub enum Invocation {
    Help,
    Run(Args),
}

/// What is left of a command line, read after what was read before: what is measured, nothing
/// where help is asked for, or what is wrong.
pub open spec fn arguments(left: Seq<Seq<char>>, so_far: Flags) -> Result<Option<Flags>, Seq<char>>
    decreases left.len(),
{
    if left.len() == 0 {
        Ok(Some(so_far))
    } else if left[0] == "-h"@ || left[0] == "--help"@ {
        Ok(None)
    } else if left[0] != "--extractor"@ && so_far.with(left[0], Seq::empty()) is None {
        Err("unexpected argument '"@ + left[0] + "' (see --help)"@)
    } else if left.len() == 1 {
        Err("missing value for "@ + left[0])
    } else if left[0] != "--extractor"@ {
        arguments(left.skip(2), so_far.with(left[0], left[1])->0)
    } else if left[1] == "heuristic"@ {
        arguments(left.skip(2), Flags { extractor: ExtractorKind::Heuristic, ..so_far })
    } else if left[1] == "cli"@ {
        arguments(left.skip(2), Flags { extractor: ExtractorKind::Cli, ..so_far })
    } else {
        Err("unknown --extractor '"@ + left[1] + "' (expected heuristic | cli)"@)
    }
}

fn between(start: &str, text: &str, end: &str) -> (r: String)
    ensures
        r@ == start@ + text@ + end@,
{
    let mut s: String = start.to_owned();
    s.append(text);
    s.append(end);
    s
}

fn takes_text(flag: &str) -> (r: bool)
    ensures
        forall|f: Flags, v: Seq<char>| r == (#[trigger] f.with(flag@, v) is Some),
{
    same(flag, "--agent") || same(flag, "--model") || same(flag, "--provider") || same(
        flag,
        "--effort",
    ) || same(flag, "--corpus") || same(flag, "--case")
}

fn set_flag(args: &mut Args, flag: &str, value: &str)
    requires
        old(args).deep_view().with(flag@, value@) is Some,
    ensures
        old(args).deep_view().with(flag@, value@) == Some(final(args).deep_view()),
{
    let v: String = value.to_owned();
    if same(flag, "--agent") {
        args.agent = Some(v);
    } else if same(flag, "--model") {
        args.model = Some(v);
    } else if same(flag, "--provider") {
        args.provider = Some(v);
    } else if same(flag, "--effort") {
        args.effort = Some(v);
    } else if same(flag, "--corpus") {
        args.corpus = Some(v);
    } else {
        args.case = Some(v);
    }
}

/// What a command line asks for.
pub fn parse_args(argv: &Vec<String>) -> (r: Result<Invocation, AppError>)
    ensures
        match arguments(texts(argv@), Flags::unset()) {
            Ok(Some(f)) => r matches Ok(Invocation::Run(a)) && a.deep_view() == f,
            Ok(None) => r matches Ok(Invocation::Help),
            Err(m) => r matches Err(e) && e.deep_view() == Fault::Other(m),
        },
{
    let ghost all = texts(argv@);
    let ghost asked = arguments(all, Flags::unset());
    let mut args = Args::default();
    let mut i: usize = 0;
    let n: usize = argv.len();
    assert(all.skip(0) =~= all);
    while i < n
        invariant
            i <= n == argv@.len(),
            all == texts(argv@),
            asked == arguments(all, Flags::unset()),
            asked == arguments(all.skip(i as int), args.deep_view()),
        decreases n - i,
    {
        let ghost left = all.skip(i as int);
        assert(left[0] == argv@[i as int]@);
        let flag: &str = argv[i].as_str();
        if same(flag, "-h") || same(flag, "--help") {
            return Ok(Invocation::Help);
        }
        let is_extractor: bool = same(flag, "--extractor");
        if !is_extractor && !takes_text(flag) {
            assert(args.deep_view().with(left[0], Seq::empty()) is None);
            return Err(
                AppError::Other(between("unexpected argument '", flag, "' (see --help)")),
            );
        }
        assert(!is_extractor ==> args.deep_view().with(left[0], Seq::empty()) is Some);
        if n - i == 1 {
            let mut message: String = "missing value for ".to_owned();
            message.append(flag);
            return Err(AppError::Other(message));
        }
        assert(left[1] == argv@[i + 1]@);
        assert(left.skip(2) =~= all.skip(i + 2));
        let value: &str = argv[i + 1].as_str();
        if !is_extractor {
            assert(args.deep_view().with(flag@, value@) is Some);
            set_flag(&mut args, flag, value);
        } else if same(value, "heuristic") {
            args.extractor = ExtractorKind::Heuristic;
        } else if same(value, "cli") {
            args.extractor = ExtractorKind::Cli;
        } else {
            return Err(
                AppError::Other(
                    between("unknown --extractor '", value, "' (expected heuristic | cli)"),
                ),
            );
        }
        i = i + 2;
    }
    assert(all.skip(i as int) =~= Seq::<Seq<char>>::empty());
    Ok(Invocation::Run(args))
}

// ---------------------------------------------------------------------------
// What is measured
// ---------------------------------------------------------------------------

/// What finds the changes, ready to be run.
pub enum Extractor {
    Heuristic,
    Cli(CliExtractor),
}

impl Flags {
    /// Whether something was said of how an agent is run.
    pub open spec fn names_a_runtime(self) -> bool {
        self.agent is Some || self.model is Some || self.provider is Some || self.effort is Some
    }

    /// The agent that is run.
    pub open spec fn agent_name(self) -> Seq<char> {
        match self.agent {
            Some(a) => a,
            None => "codex"@,
        }
    }

    /// How the agent is run.
    pub open spec fn overrides(self) -> Overrides {
        Overrides { model: self.model, provider: self.provider, effort: self.effort }
    }

    /// What is wrong with what was said.
    pub open spec fn fault(self) -> Option<Fault> {
        if self.extractor == ExtractorKind::Heuristic {
            if self.names_a_runtime() {
                Some(
                    Fault::Other(
                        "--agent/--model/--provider/--effort are only valid with --extractor cli"@,
                    ),
                )
            } else {
                None
            }
        } else {
            match agent_named(self.agent_name()) {
                Some(a) => refused(a, self.overrides()),
                None => Some(
                    Fault::Other(
                        "unknown --agent '"@ + self.agent_name()
                            + "' (expected codex | claude_code | pi)"@,
                    ),
                ),
            }
        }
    }
}

/// What finds the changes. How an agent is run is what the arguments say and nothing else, so that
/// a measurement can be repeated.
pub fn build_extractor(args: &Args) -> (r: Result<Extractor, AppError>)
    ensures
        match args.deep_view().fault() {
            Some(f) => r matches Err(e) && e.deep_view() == f,
            None => match args.extractor {
                ExtractorKind::Heuristic => r matches Ok(Extractor::Heuristic),
                ExtractorKind::Cli => r matches Ok(Extractor::Cli(x)) && Some(x.agent)
                    == agent_named(args.deep_view().agent_name()) && x.opts.model.deep_view()
                    == args.deep_view().overrides().normal().model && x.opts.provider.deep_view()
                    == args.deep_view().overrides().normal().provider && x.opts.effort.deep_view()
                    == args.deep_view().overrides().normal().effort,
            },
        },
{
    if args.extractor == ExtractorKind::Heuristic {
        if args.agent.is_some() || args.model.is_some() || args.provider.is_some()
            || args.effort.is_some() {
            return Err(
                other("--agent/--model/--provider/--effort are only valid with --extractor cli"),
            );
        }
        return Ok(Extractor::Heuristic);
    }
    let name: &str = match &args.agent {
        Some(a) => a.as_str(),
        None => "codex",
    };
    let agent = match agent_of(name) {
        Ok(a) => a,
        Err(_) => {
            return Err(
                AppError::Other(
                    between("unknown --agent '", name, "' (expected codex | claude_code | pi)"),
                ),
            );
        },
    };
    let overrides = AgentRuntimeOverrides {
        model: copy_text(&args.model),
        provider: copy_text(&args.provider),
        effort: copy_text(&args.effort),
    };
    match validate_runtime_overrides(agent, &overrides) {
        Ok(()) => Ok(Extractor::Cli(CliExtractor { agent, opts: overrides.exec_options() })),
        Err(e) => Err(e),
    }
}

/// The fixtures of a corpus among the files of its directory, in order, so that two reports can be
/// compared.
pub fn corpus_files(dir: &str, names: &Vec<String>) -> (r: Result<Vec<String>, AppError>)
    ensures
        match r {
            Ok(files) => ascending(texts(files@)) && texts(files@).to_set() == with_extension(
                texts(names@),
                "json"@,
            ) && files@.len() > 0,
            Err(e) => with_extension(texts(names@), "json"@) == Set::<Seq<char>>::empty()
                && e.deep_view() == Fault::Other("no .json fixtures found in "@ + dir@),
        },
{
    let files = named_with(names, "json");
    if files.len() == 0 {
        assert(texts(files@).to_set() =~= Set::<Seq<char>>::empty());
        let mut message: String = "no .json fixtures found in ".to_owned();
        message.append(dir);
        return Err(AppError::Other(message));
    }
    Ok(files)
}

/// Where the fixtures with a name stand.
pub open spec fn places_of(names: Seq<Seq<char>>, name: Seq<char>) -> Seq<int>
    decreases names.len(),
{
    if names.len() == 0 {
        Seq::empty()
    } else if names.last() == name {
        places_of(names.drop_last(), name).push(names.len() - 1)
    } else {
        places_of(names.drop_last(), name)
    }
}

/// Where the fixtures stand that are to be run: those with the name that was asked for, or all.
pub fn select_case(names: &Vec<String>, case: &Option<String>) -> (r: Result<Vec<usize>, AppError>)
    ensures
        match *case {
            None => r matches Ok(v) && v@.len() == names@.len() && forall|k: int|
                0 <= k < v@.len() ==> #[trigger] v@[k] == k,
            Some(c) => {
                let places = places_of(texts(names@), c@);
                if places.len() == 0 {
                    r matches Err(e) && e.deep_view() == Fault::Other(
                        "case '"@ + c@ + "' not found in corpus; available: "@ + joined(
                            texts(names@),
                            ", "@,
                        ),
                    )
                } else {
                    r matches Ok(v) && v@.map_values(|k: usize| k as int) == places
                }
            },
        },
{
    let ghost all = texts(names@);
    let mut out: Vec<usize> = Vec::new();
    let mut i: usize = 0;
    match case {
        None => {
            while i < names.len()
                invariant
                    i <= names@.len(),
                    out@.len() == i,
                    forall|k: int| 0 <= k < i ==> #[trigger] out@[k] == k,
                decreases names@.len() - i,
            {
                out.push(i);
                i = i + 1;
            }
            Ok(out)
        },
        Some(c) => {
            assert(all.take(0) =~= Seq::<Seq<char>>::empty());
            assert(out@.map_values(|k: usize| k as int) =~= places_of(all.take(0), c@));
            while i < names.len()
                invariant
                    i <= names@.len(),
                    all == texts(names@),
                    out@.map_values(|k: usize| k as int) == places_of(all.take(i as int), c@),
                decreases names@.len() - i,
            {
                assert(all.take(i + 1).drop_last() =~= all.take(i as int));
                assert(all.take(i + 1).last() == names@[i as int]@);
                if same(names[i].as_str(), c.as_str()) {
                    let ghost so_far = out@.map_values(|k: usize| k as int);
                    out.push(i);
                    assert(out@.map_values(|k: usize| k as int) =~= so_far.push(i as int));
                }
                i = i + 1;
            }
            assert(all.take(i as int) =~= all);
            assert(places_of(all, c@).len() == out@.len()) by {
                assert(out@.map_values(|k: usize| k as int).len() == out@.len());
            }
            if out.len() == 0 {
                let mut message: String = between(
                    "case '",
                    c.as_str(),
                    "' not found in corpus; available: ",
                );
                message.append(join(names, ", ").as_str());
                return Err(AppError::Other(message));
            }
            Ok(out)
        },
    }
}

// ---------------------------------------------------------------------------
// Lines
// ---------------------------------------------------------------------------

/// So many spaces.
pub open spec fn spaces(n: int) -> Seq<char> {
    Seq::new(
        if n > 0 {
            n as nat
        } else {
            0
        },
        |i: int| ' ',
    )
}

/// A label and a value, each in its column.
pub open spec fn summary(label: Seq<char>, value: Seq<char>) -> Seq<char> {
    label + spaces(20 - label.len()) + (spaces(6 - value.len()) + value)
}

fn add_spaces(s: &mut String, from: usize, to: usize)
    ensures
        final(s)@ == old(s)@ + spaces(to - from),
{
    let ghost start = s@;
    let mut i: usize = from;
    assert(s@ =~= start + spaces(0));
    while i < to
        invariant
            from <= i,
            from <= to ==> i <= to,
            from > to ==> i == from,
            s@ == start + spaces(i - from),
        decreases to - i,
    {
        s.push(' ');
        i = i + 1;
        assert(s@ =~= start + spaces(i - from));
    }
    assert(spaces(to - from) =~= spaces(i - from));
}

/// A label and a value, each in its column.
pub fn summary_line(label: &str, value: &str) -> (r: String)
    ensures
        r@ == summary(label@, value@),
{
    let mut s: String = label.to_owned();
    let n: usize = chars_of(label).len();
    add_spaces(&mut s, n, 20);
    let m: usize = chars_of(value).len();
    add_spaces(&mut s, m, 6);
    s.append(value);
    assert(s@ =~= summary(label@, value@));
    s
}

fn add_line(out: &mut Vec<String>, line: String)
    ensures
        texts(final(out)@) == texts(old(out)@).push(line@),
{
    out.push(line);
    assert(texts(out@) =~= texts(old(out)@).push(line@));
}

fn add_count(out: &mut Vec<String>, label: &str, n: usize)
    ensures
        texts(final(out)@) == texts(old(out)@).push(summary(label@, decimal(n as nat))),
{
    add_line(out, summary_line(label, decimal_of(n as u64).as_str()));
}

fn add_text(out: &mut Vec<String>, line: &str)
    ensures
        texts(final(out)@) == texts(old(out)@).push(line@),
{
    add_line(out, line.to_owned());
}

// ---------------------------------------------------------------------------
// Against a baseline
// ---------------------------------------------------------------------------

/// How a fixture did against its baseline.
pub open spec fn baseline_status(failed: Seq<Seq<char>>, d: BaselineDiff) -> Seq<char> {
    if d.unexpected_failures@.len() > 0 || d.unexpected_passes@.len() > 0 {
        "MISMATCH"@
    } else if failed.len() == 0 {
        "PASS"@
    } else {
        "FAIL (known)"@
    }
}

/// The lines on checks that pass though the baseline says that they fail.
pub open spec fn pass_lines(passes: Seq<Seq<char>>) -> Seq<Seq<char>> {
    passes.map_values(|id: Seq<char>| "    unexpected pass (re-baseline): "@ + id)
}

/// The lines on checks that fail though the baseline does not say so.
pub open spec fn failure_lines(failures: Seq<CheckResult>) -> Seq<Seq<char>> {
    failures.map_values(
        |c: CheckResult| "    unexpected failure: "@ + c.id@ + ": "@ + c.detail@,
    )
}

/// The lines on one fixture.
pub open spec fn baseline_lines(result: EvalCaseResult, d: BaselineDiff) -> Seq<Seq<char>> {
    let failed = failed_list(result.checks@);
    seq![
        "["@ + baseline_status(failed, d) + "] "@ + result.fixture_name@ + " ["@ + result.dimension@
            + "]"@,
    ] + (if failed.len() == 0 {
        Seq::empty()
    } else {
        seq!["    failed: "@ + joined(failed, ", "@)]
    }) + pass_lines(texts(d.unexpected_passes@)) + failure_lines(d.unexpected_failures@) + seq![""@]
}

/// The lines on the first fixtures.
pub open spec fn all_baseline_lines(
    cases: Seq<EvalCaseResult>,
    diffs: Seq<BaselineDiff>,
    n: int,
) -> Seq<Seq<char>>
    decreases n,
{
    if n <= 0 {
        Seq::empty()
    } else {
        all_baseline_lines(cases, diffs, n - 1) + baseline_lines(cases[n - 1], diffs[n - 1])
    }
}

/// How many checks of the first fixtures fail as the baseline says.
pub open spec fn known_total(cases: Seq<EvalCaseResult>, diffs: Seq<BaselineDiff>, n: int) -> int
    decreases n,
{
    if n <= 0 {
        0
    } else {
        known_total(cases, diffs, n - 1) + failed_list(cases[n - 1].checks@).len() - diffs[n
            - 1].unexpected_failures@.len()
    }
}

/// How many checks of the first fixtures fail though the baseline does not say so.
pub open spec fn failure_total(diffs: Seq<BaselineDiff>, n: int) -> int
    decreases n,
{
    if n <= 0 {
        0
    } else {
        failure_total(diffs, n - 1) + diffs[n - 1].unexpected_failures@.len()
    }
}

/// How many checks of the first fixtures pass though the baseline says that they fail.
pub open spec fn pass_total(diffs: Seq<BaselineDiff>, n: int) -> int
    decreases n,
{
    if n <= 0 {
        0
    } else {
        pass_total(diffs, n - 1) + diffs[n - 1].unexpected_passes@.len()
    }
}

/// There is one difference for every fixture, and the counts can be held.
pub open spec fn can_be_told(cases: Seq<EvalCaseResult>, diffs: Seq<BaselineDiff>) -> bool {
    &&& cases.len() == diffs.len()
    &&& forall|i: int|
        0 <= i < cases.len() ==> (#[trigger] diffs[i]).unexpected_failures@.len() <= failed_list(
            cases[i].checks@,
        ).len()
    &&& all_checks(cases) <= usize::MAX
    &&& known_total(cases, diffs, cases.len() as int) <= usize::MAX
    &&& failure_total(diffs, diffs.len() as int) <= usize::MAX
    &&& pass_total(diffs, diffs.len() as int) <= usize::MAX
}

/// The report on a corpus against its baseline.
pub open spec fn baseline_report(cases: Seq<EvalCaseResult>, diffs: Seq<BaselineDiff>) -> Seq<
    Seq<char>,
> {
    let n = cases.len() as int;
    all_baseline_lines(cases, diffs, n).push(
        "-------------------------------------------------"@,
    ).push(summary("Cases"@, decimal(n as nat))).push(
        summary("Fully passed"@, decimal(clean_cases(cases))),
    ).push(""@).push(summary("Checks"@, decimal(all_checks(cases)))).push(
        summary("Passed"@, decimal(all_passed(cases))),
    ).push(summary("Known failures"@, decimal(known_total(cases, diffs, n) as nat))).push(
        summary("Unexpected failures"@, decimal(failure_total(diffs, n) as nat)),
    ).push(summary("Unexpected passes"@, decimal(pass_total(diffs, n) as nat)))
}

proof fn totals_grow(cases: Seq<EvalCaseResult>, diffs: Seq<BaselineDiff>, n: int, m: int)
    requires
        0 <= n <= m <= cases.len(),
        cases.len() == diffs.len(),
        forall|i: int|
            0 <= i < cases.len() ==> (#[trigger] diffs[i]).unexpected_failures@.len()
                <= failed_list(cases[i].checks@).len(),
    ensures
        0 <= known_total(cases, diffs, n) <= known_total(cases, diffs, m),
        0 <= failure_total(diffs, n) <= failure_total(diffs, m),
        0 <= pass_total(diffs, n) <= pass_total(diffs, m),
    decreases m,
{
    if n < m {
        totals_grow(cases, diffs, n, m - 1);
        assert(diffs[m - 1].unexpected_failures@.len() <= failed_list(cases[m - 1].checks@).len());
    } else if n > 0 {
        totals_grow(cases, diffs, n - 1, m - 1);
        assert(diffs[m - 1].unexpected_failures@.len() <= failed_list(cases[m - 1].checks@).len());
    }
}

fn add_baseline_lines(out: &mut Vec<String>, result: &EvalCaseResult, diff: &BaselineDiff) -> (n:
    usize)
    ensures
        texts(final(out)@) == texts(old(out)@) + baseline_lines(*result, *diff),
        n == failed_list(result.checks@).len(),
{
    let failed = result.failed_check_ids();
    let n: usize = failed.len();
    let status: &str = if !diff.is_clean() {
        "MISMATCH"
    } else if failed.len() == 0 {
        "PASS"
    } else {
        "FAIL (known)"
    };
    let mut head: String = between("[", status, "] ");
    head.append(result.fixture_name.as_str());
    head.append(" [");
    head.append(result.dimension.as_str());
    head.append("]");
    let ghost start = texts(out@);
    let ghost lines = baseline_lines(*result, *diff);
    let ghost first = head@;
    add_line(out, head);
    if n > 0 {
        let mut line: String = "    failed: ".to_owned();
        line.append(join(&failed, ", ").as_str());
        add_line(out, line);
    }
    let ghost top = texts(out@);
    let ghost passes = texts(diff.unexpected_passes@);
    let mut i: usize = 0;
    assert(top =~= top + pass_lines(passes.take(0)));
    while i < diff.unexpected_passes.len()
        invariant
            i <= diff.unexpected_passes@.len(),
            passes == texts(diff.unexpected_passes@),
            texts(out@) == top + pass_lines(passes.take(i as int)),
        decreases diff.unexpected_passes@.len() - i,
    {
        let mut line: String = "    unexpected pass (re-baseline): ".to_owned();
        line.append(diff.unexpected_passes[i].as_str());
        add_line(out, line);
        i = i + 1;
        assert(pass_lines(passes.take(i as int)) =~= pass_lines(passes.take(i - 1)).push(
            "    unexpected pass (re-baseline): "@ + passes[i - 1],
        ));
        assert(texts(out@) =~= top + pass_lines(passes.take(i as int)));
    }
    assert(passes.take(i as int) =~= passes);
    let ghost middle = texts(out@);
    let ghost failures = diff.unexpected_failures@;
    let mut k: usize = 0;
    assert(middle =~= middle + failure_lines(failures.take(0)));
    while k < diff.unexpected_failures.len()
        invariant
            k <= diff.unexpected_failures@.len(),
            failures == diff.unexpected_failures@,
            texts(out@) == middle + failure_lines(failures.take(k as int)),
        decreases diff.unexpected_failures@.len() - k,
    {
        let c: &CheckResult = &diff.unexpected_failures[k];
        let mut line: String = between("    unexpected failure: ", c.id.as_str(), ": ");
        line.append(c.detail.as_str());
        add_line(out, line);
        k = k + 1;
        assert(failure_lines(failures.take(k as int)) =~= failure_lines(failures.take(k - 1)).push(
            "    unexpected failure: "@ + failures[k - 1].id@ + ": "@ + failures[k - 1].detail@,
        ));
        assert(texts(out@) =~= middle + failure_lines(failures.take(k as int)));
    }
    assert(failures.take(k as int) =~= failures);
    add_text(out, "");
    assert(texts(out@) =~= start + lines);
    n
}

/// The report on a corpus against its baseline, line by line.
pub fn render_baseline_report(report: &EvalReport, diffs: &Vec<BaselineDiff>) -> (r: Vec<String>)
    requires
        can_be_told(report.cases@, diffs@),
    ensures
        texts(r@) == baseline_report(report.cases@, diffs@),
{
    let mut out: Vec<String> = Vec::new();
    let mut known: usize = 0;
    let mut failures: usize = 0;
    let mut passes: usize = 0;
    let mut i: usize = 0;
    let n: usize = report.cases.len();
    assert(texts(out@) =~= all_baseline_lines(report.cases@, diffs@, 0));
    while i < n
        invariant
            i <= n == report.cases@.len() == diffs@.len(),
            can_be_told(report.cases@, diffs@),
            texts(out@) == all_baseline_lines(report.cases@, diffs@, i as int),
            known == known_total(report.cases@, diffs@, i as int),
            failures == failure_total(diffs@, i as int),
            passes == pass_total(diffs@, i as int),
        decreases n - i,
    {
        proof {
            totals_grow(report.cases@, diffs@, i + 1, n as int);
            assert(diffs@[i as int].unexpected_failures@.len() <= failed_list(
                report.cases@[i as int].checks@,
            ).len());
        }
        let failed: usize = add_baseline_lines(&mut out, &report.cases[i], &diffs[i]);
        known = known + (failed - diffs[i].unexpected_failures.len());
        failures = failures + diffs[i].unexpected_failures.len();
        passes = passes + diffs[i].unexpected_passes.len();
        i = i + 1;
    }
    add_text(&mut out, "-------------------------------------------------");
    add_count(&mut out, "Cases", n);
    add_count(&mut out, "Fully passed", report.fully_passed_cases());
    add_text(&mut out, "");
    add_count(&mut out, "Checks", report.total_checks());
    add_count(&mut out, "Passed", report.passed_checks());
    add_count(&mut out, "Known failures", known);
    add_count(&mut out, "Unexpected failures", failures);
    add_count(&mut out, "Unexpected passes", passes);
    out
}

// ---------------------------------------------------------------------------
// A measurement
// ---------------------------------------------------------------------------

/// The lines on the checks that failed.
pub open spec fn detail_lines(checks: Seq<CheckResult>) -> Seq<Seq<char>>
    decreases checks.len(),
{
    if checks.len() == 0 {
        Seq::empty()
    } else if checks.last().passed {
        detail_lines(checks.drop_last())
    } else {
        detail_lines(checks.drop_last()).push("    ✗ "@ + checks.last().id@).push(
            "      "@ + checks.last().detail@,
        )
    }
}

/// The lines on one fixture.
pub open spec fn measured_lines(result: EvalCaseResult) -> Seq<Seq<char>> {
    let total = result.checks@.len();
    let passed = passed_count(result.checks@);
    seq![
        "["@ + (if passed == total {
            "PASS"@
        } else {
            "FAIL"@
        }) + "] "@ + result.fixture_name@,
        "    "@ + decimal(passed) + " / "@ + decimal(total) + " checks"@,
    ] + detail_lines(result.checks@) + seq![""@]
}

/// The lines on fixtures.
pub open spec fn all_measured_lines(cases: Seq<EvalCaseResult>) -> Seq<Seq<char>>
    decreases cases.len(),
{
    if cases.len() == 0 {
        Seq::empty()
    } else {
        all_measured_lines(cases.drop_last()) + measured_lines(cases.last())
    }
}

/// The report on a measurement, but for the share of checks that passed.
pub open spec fn measurement_report(cases: Seq<EvalCaseResult>) -> Seq<Seq<char>> {
    all_measured_lines(cases).push("-------------------------------------------------"@).push(
        summary("Cases"@, decimal(cases.len())),
    ).push(
        summary("Fully passed"@, decimal(clean_cases(cases)) + " / "@ + decimal(cases.len())),
    ).push(""@).push(summary("Checks"@, decimal(all_checks(cases)))).push(
        summary("Passed"@, decimal(all_passed(cases))),
    ).push(summary("Failed"@, decimal((all_checks(cases) - all_passed(cases)) as nat)))
}

fn add_measured_lines(out: &mut Vec<String>, result: &EvalCaseResult)
    ensures
        texts(final(out)@) == texts(old(out)@) + measured_lines(*result),
{
    let ghost start = texts(out@);
    let total: usize = result.checks.len();
    let passed: usize = result.passed_checks();
    let status: &str = if passed == total {
        "PASS"
    } else {
        "FAIL"
    };
    let mut head: String = between("[", status, "] ");
    head.append(result.fixture_name.as_str());
    add_line(out, head);
    let mut count: String = "    ".to_owned();
    count.append(decimal_of(passed as u64).as_str());
    count.append(" / ");
    count.append(decimal_of(total as u64).as_str());
    count.append(" checks");
    add_line(out, count);
    let ghost top = texts(out@);
    let ghost all = result.checks@;
    let mut i: usize = 0;
    assert(all.take(0) =~= Seq::<CheckResult>::empty());
    assert(top =~= top + detail_lines(all.take(0)));
    while i < result.checks.len()
        invariant
            i <= result.checks@.len(),
            all == result.checks@,
            texts(out@) == top + detail_lines(all.take(i as int)),
        decreases result.checks@.len() - i,
    {
        assert(all.take(i + 1).drop_last() =~= all.take(i as int));
        assert(all.take(i + 1).last() == all[i as int]);
        if !result.checks[i].passed {
            let mut line: String = "    ✗ ".to_owned();
            line.append(result.checks[i].id.as_str());
            add_line(out, line);
            let mut detail: String = "      ".to_owned();
            detail.append(result.checks[i].detail.as_str());
            add_line(out, detail);
            assert(texts(out@) =~= top + detail_lines(all.take(i + 1)));
        }
        i = i + 1;
    }
    assert(all.take(i as int) =~= all);
    add_text(out, "");
    assert(texts(out@) =~= start + measured_lines(*result));
}

/// The report on a measurement, line by line, but for the share of checks that passed.
pub fn render_measurement_report(report: &EvalReport) -> (r: Vec<String>)
    requires
        all_checks(report.cases@) <= usize::MAX,
    ensures
        texts(r@) == measurement_report(report.cases@),
{
    let ghost all = report.cases@;
    let mut out: Vec<String> = Vec::new();
    let mut i: usize = 0;
    let n: usize = report.cases.len();
    assert(all.take(0) =~= Seq::<EvalCaseResult>::empty());
    assert(texts(out@) =~= all_measured_lines(all.take(0)));
    while i < n
        invariant
            i <= n == report.cases@.len(),
            all == report.cases@,
            texts(out@) == all_measured_lines(all.take(i as int)),
        decreases n - i,
    {
        assert(all.take(i + 1).drop_last() =~= all.take(i as int));
        assert(all.take(i + 1).last() == all[i as int]);
        add_measured_lines(&mut out, &report.cases[i]);
        i = i + 1;
    }
    assert(all.take(i as int) =~= all);
    let total: usize = report.total_checks();
    let passed: usize = report.passed_checks();
    proof {
        no_more_pass_than_there_are(report.cases@);
    }
    add_text(&mut out, "-------------------------------------------------");
    add_count(&mut out, "Cases", n);
    let mut clean: String = decimal_of(report.fully_passed_cases() as u64);
    clean.append(" / ");
    clean.append(decimal_of(n as u64).as_str());
    add_line(&mut out, summary_line("Fully passed", clean.as_str()));
    add_text(&mut out, "");
    add_count(&mut out, "Checks", total);
    add_count(&mut out, "Passed", passed);
    add_count(&mut out, "Failed", total - passed);
    out
}

// ---------------------------------------------------------------------------
// Laws
// ---------------------------------------------------------------------------

/// An argument that is given twice counts as it is given last.
pub proof fn the_last_value_counts(f: Flags, flag: Seq<char>, a: Seq<char>, b: Seq<char>)
    requires
        f.with(flag, a) is Some,
    ensures
        (f.with(flag, a)->0).with(flag, b) == f.with(flag, b),
{
}

/// Of the two ways to ask, only one takes what is said of an agent.
pub proof fn a_heuristic_names_no_runtime(f: Flags)
    requires
        f.extractor == ExtractorKind::Heuristic,
    ensures
        f.fault() is None <==> !f.names_a_runtime(),
{
}

} // verus!
