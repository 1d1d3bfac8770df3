//! What holds of the command line of the measurement and of its reports.
use crate::agent_runtime::capabilities::refused;
use crate::commands::agents::agent_named;
use crate::context_eval::cli::{
    all_baseline_lines, all_measured_lines, arguments, baseline_lines, baseline_report,
    baseline_status, detail_lines, failure_lines, failure_total, known_total, measured_lines,
    measurement_report, pass_lines, pass_total, places_of, spaces, summary, ExtractorKind, Flags,
};
use crate::context_eval::evaluator::{
    all_checks, all_passed, clean_cases, failed_list, passed_count, BaselineDiff, CheckResult,
    EvalCaseResult,
};
use crate::error::Fault;
use crate::text::{decimal, joined, texts};
use vstd::prelude::*;

verus! {

// ---------------------------------------------------------------------------
// Arguments
// ---------------------------------------------------------------------------

/// The flag that takes a text, and nothing else of a measurement, is set.
pub open spec fn sets(flag: Seq<char>, value: Seq<char>, was: Flags, is: Flags) -> bool {
    &&& is.extractor == was.extractor
    &&& is.agent == (if flag == "--agent"@ {
        Some(value)
    } else {
        was.agent
    })
    &&& is.model == (if flag == "--model"@ {
        Some(value)
    } else {
        was.model
    })
    &&& is.provider == (if flag == "--provider"@ {
        Some(value)
    } else {
        was.provider
    })
    &&& is.effort == (if flag == "--effort"@ {
        Some(value)
    } else {
        was.effort
    })
    &&& is.corpus == (if flag == "--corpus"@ {
        Some(value)
    } else {
        was.corpus
    })
    &&& is.case == (if flag == "--case"@ {
        Some(value)
    } else {
        was.case
    })
}

/// The flags that take a text.
pub open spec fn takes_a_text(flag: Seq<char>) -> bool {
    ||| flag == "--agent"@
    ||| flag == "--model"@
    ||| flag == "--provider"@
    ||| flag == "--effort"@
    ||| flag == "--corpus"@
    ||| flag == "--case"@
}

proof fn flags_differ()
    ensures
        "--agent"@ != "--model"@,
        "--agent"@ != "--provider"@,
        "--agent"@ != "--effort"@,
        "--agent"@ != "--corpus"@,
        "--agent"@ != "--case"@,
        "--model"@ != "--provider"@,
        "--model"@ != "--effort"@,
        "--model"@ != "--corpus"@,
        "--model"@ != "--case"@,
        "--provider"@ != "--effort"@,
        "--provider"@ != "--corpus"@,
        "--provider"@ != "--case"@,
        "--effort"@ != "--corpus"@,
        "--effort"@ != "--case"@,
        "--corpus"@ != "--case"@,
        !takes_a_text("--extractor"@),
        !takes_a_text("-h"@),
        !takes_a_text("--help"@),
        "--extractor"@ != "-h"@,
        "--extractor"@ != "--help"@,
        "heuristic"@ != "cli"@,
{
    reveal_strlit("--agent");
    reveal_strlit("--model");
    reveal_strlit("--provider");
    reveal_strlit("--effort");
    reveal_strlit("--corpus");
    reveal_strlit("--case");
    reveal_strlit("--extractor");
    reveal_strlit("-h");
    reveal_strlit("--help");
    reveal_strlit("heuristic");
    reveal_strlit("cli");
    assert("--agent"@[2] == 'a' && "--model"@[2] == 'm' && "--provider"@[2] == 'p');
    assert("--effort"@[2] == 'e' && "--corpus"@[2] == 'c' && "--case"@[2] == 'c');
    assert("--corpus"@[3] == 'o' && "--case"@[3] == 'a');
    assert("--extractor"@.len() == 11 && "--provider"@.len() == 10 && "--effort"@.len() == 8);
    assert("--help"@[2] == 'h');
    assert("-h"@.len() == 2 && "--help"@.len() == 6);
    assert("heuristic"@.len() == 9 && "cli"@.len() == 3);
}

/// A command line is read flag by flag, each with its value; nothing at all measures with what
/// needs no agent.
pub proof fn a_flag_is_read_with_its_value(
    flag: Seq<char>,
    value: Seq<char>,
    rest: Seq<Seq<char>>,
    f: Flags,
    g: Flags,
)
    ensures
        arguments(Seq::empty(), f) == Ok::<Option<Flags>, Seq<char>>(Some(f)),
        takes_a_text(flag) && sets(flag, value, f, g) ==> arguments(seq![flag, value] + rest, f)
            == arguments(rest, g),
        arguments(seq!["--extractor"@, "cli"@] + rest, f) == arguments(
            rest,
            Flags { extractor: ExtractorKind::Cli, ..f },
        ),
        arguments(seq!["--extractor"@, "heuristic"@] + rest, f) == arguments(
            rest,
            Flags { extractor: ExtractorKind::Heuristic, ..f },
        ),
        ({
            let none = Flags::unset();
            &&& none.extractor == ExtractorKind::Heuristic
            &&& none.agent is None
            &&& none.model is None
            &&& none.provider is None
            &&& none.effort is None
            &&& none.corpus is None
            &&& none.case is None
        }),
{
    flags_differ();
    let all = seq![flag, value] + rest;
    assert(all.skip(2) =~= rest);
    assert(all[0] == flag && all[1] == value);
    if takes_a_text(flag) && sets(flag, value, f, g) {
        assert(f.with(flag, value) == Some(g));
        assert(f.with(flag, Seq::empty()) is Some);
    }
    let cli = seq!["--extractor"@, "cli"@] + rest;
    assert(cli.skip(2) =~= rest);
    assert(cli[0] == "--extractor"@ && cli[1] == "cli"@);
    let own = seq!["--extractor"@, "heuristic"@] + rest;
    assert(own.skip(2) =~= rest);
    assert(own[0] == "--extractor"@ && own[1] == "heuristic"@);
}

/// Help is given where it is asked for; a flag that is not known, one without a value and an
/// extractor that is not known are told.
pub proof fn what_is_wrong_with_a_command_line(
    flag: Seq<char>,
    value: Seq<char>,
    rest: Seq<Seq<char>>,
    f: Flags,
)
    ensures
        flag == "-h"@ || flag == "--help"@ ==> arguments(seq![flag] + rest, f) == Ok::<
            Option<Flags>,
            Seq<char>,
        >(None),
        flag != "-h"@ && flag != "--help"@ && flag != "--extractor"@ && !takes_a_text(flag)
            ==> arguments(seq![flag] + rest, f) == Err::<Option<Flags>, Seq<char>>(
            "unexpected argument '"@ + flag + "' (see --help)"@,
        ),
        takes_a_text(flag) || flag == "--extractor"@ ==> arguments(seq![flag], f) == Err::<
            Option<Flags>,
            Seq<char>,
        >("missing value for "@ + flag),
        value != "cli"@ && value != "heuristic"@ ==> arguments(
            seq!["--extractor"@, value] + rest,
            f,
        ) == Err::<Option<Flags>, Seq<char>>(
            "unknown --extractor '"@ + value + "' (expected heuristic | cli)"@,
        ),
{
    flags_differ();
    let all = seq![flag] + rest;
    assert(all[0] == flag);
    if takes_a_text(flag) {
        assert(f.with(flag, Seq::empty()) is Some);
    } else {
        assert(f.with(flag, Seq::empty()) is None);
    }
    let two = seq!["--extractor"@, value] + rest;
    assert(two[0] == "--extractor"@ && two[1] == value);
}

/// An agent is run as the command line says and no other way, Codex where it does not say; what an
/// agent does not take is refused, and so is an agent that is not known.
pub proof fn how_an_agent_is_run(f: Flags)
    ensures
        f.agent matches Some(a) ==> f.agent_name() == a,
        f.agent is None ==> f.agent_name() == "codex"@,
        f.overrides().model == f.model,
        f.overrides().provider == f.provider,
        f.overrides().effort == f.effort,
        f.extractor == ExtractorKind::Cli ==> {
            &&& agent_named(f.agent_name()) is None ==> f.fault() == Some(
                Fault::Other(
                    "unknown --agent '"@ + f.agent_name()
                        + "' (expected codex | claude_code | pi)"@,
                ),
            )
            &&& agent_named(f.agent_name()) matches Some(a) ==> f.fault() == refused(
                a,
                f.overrides(),
            )
        },
        f.extractor == ExtractorKind::Heuristic ==> {
            let says = f.agent is Some || f.model is Some || f.provider is Some || f.effort is Some;
            &&& says ==> f.fault() == Some(
                Fault::Other(
                    "--agent/--model/--provider/--effort are only valid with --extractor cli"@,
                ),
            )
            &&& !says ==> f.fault() is None
        },
{
}

/// The fixtures of a name are all those that have it, in order.
pub proof fn fixtures_are_found_by_name(names: Seq<Seq<char>>, name: Seq<char>)
    ensures
        forall|k: int|
            #[trigger] places_of(names, name).contains(k) <==> 0 <= k < names.len() && names[k]
                == name,
        forall|i: int, j: int|
            0 <= i < j < places_of(names, name).len() ==> #[trigger] places_of(names, name)[i]
                < #[trigger] places_of(names, name)[j],
    decreases names.len(),
{
    if names.len() > 0 {
        let front = names.drop_last();
        fixtures_are_found_by_name(front, name);
        let was = places_of(front, name);
        let is = places_of(names, name);
        let n = names.len() - 1;
        assert forall|k: int| #[trigger] is.contains(k) <==> 0 <= k < names.len() && names[k]
            == name by {
            assert(was.contains(k) <==> 0 <= k < n && front[k] == name);
            if is.contains(k) {
                let i = choose|i: int| 0 <= i < is.len() && is[i] == k;
                if i < was.len() {
                    assert(was[i] == k);
                    assert(was.contains(k));
                }
            }
            if 0 <= k < names.len() && names[k] == name {
                if k < n {
                    assert(front[k] == names[k]);
                    let i = choose|i: int| 0 <= i < was.len() && was[i] == k;
                    assert(is[i] == k);
                } else {
                    assert(is.last() == n);
                    assert(is[is.len() - 1] == k);
                }
            }
        }
        assert forall|i: int, j: int| 0 <= i < j < is.len() implies #[trigger] is[i]
            < #[trigger] is[j] by {
            assert(was[i] == is[i]);
            assert(was.contains(was[i]));
            if j < was.len() {
                assert(was[j] == is[j]);
            }
        }
    }
}

// ---------------------------------------------------------------------------
// Reports
// ---------------------------------------------------------------------------

/// A label stands on the left of twenty columns, a value on the right of six; neither is cut.
pub proof fn a_line_stands_in_its_columns(label: Seq<char>, value: Seq<char>, n: int)
    ensures
        n >= 0 ==> spaces(n).len() == n,
        n < 0 ==> spaces(n).len() == 0,
        forall|i: int| 0 <= i < n ==> #[trigger] spaces(n)[i] == ' ',
        label.len() <= 20 && value.len() <= 6 ==> summary(label, value).len() == 26,
        summary(label, value).take(label.len() as int) == label,
        summary(label, value).skip(summary(label, value).len() - value.len()) == value,
{
    let s = summary(label, value);
    assert(s.take(label.len() as int) =~= label);
    assert(s.skip(s.len() - value.len()) =~= value);
}

/// A fixture that differs from its baseline is a mismatch; one without failures passes, and one
/// with just the failures that are known is told as such.
pub proof fn how_a_fixture_did(failed: Seq<Seq<char>>, d: BaselineDiff)
    ensures
        ({
            let differs = d.unexpected_failures@.len() > 0 || d.unexpected_passes@.len() > 0;
            &&& differs ==> baseline_status(failed, d) == "MISMATCH"@
            &&& !differs && failed.len() == 0 ==> baseline_status(failed, d) == "PASS"@
            &&& !differs && failed.len() > 0 ==> baseline_status(failed, d) == "FAIL (known)"@
        }),
{
}

/// A fixture is told by how it did, what failed, and each difference from its baseline.
pub proof fn what_is_told_of_a_fixture(result: EvalCaseResult, d: BaselineDiff)
    ensures
        ({
            let failed = failed_list(result.checks@);
            let head = "["@ + baseline_status(failed, d) + "] "@ + result.fixture_name@ + " ["@
                + result.dimension@ + "]"@;
            let differences = pass_lines(texts(d.unexpected_passes@)) + failure_lines(
                d.unexpected_failures@,
            );
            &&& failed.len() == 0 ==> baseline_lines(result, d) == seq![head] + differences
                + seq![""@]
            &&& failed.len() > 0 ==> baseline_lines(result, d) == seq![
                head,
                "    failed: "@ + joined(failed, ", "@),
            ] + differences + seq![""@]
        }),
        pass_lines(texts(d.unexpected_passes@)).len() == d.unexpected_passes@.len(),
        forall|i: int|
            0 <= i < d.unexpected_passes@.len() ==> #[trigger] pass_lines(
                texts(d.unexpected_passes@),
            )[i] == "    unexpected pass (re-baseline): "@ + d.unexpected_passes@[i]@,
        failure_lines(d.unexpected_failures@).len() == d.unexpected_failures@.len(),
        forall|i: int|
            0 <= i < d.unexpected_failures@.len() ==> #[trigger] failure_lines(
                d.unexpected_failures@,
            )[i] == "    unexpected failure: "@ + d.unexpected_failures@[i].id@ + ": "@
                + d.unexpected_failures@[i].detail@,
{
    let failed = failed_list(result.checks@);
    let head = "["@ + baseline_status(failed, d) + "] "@ + result.fixture_name@ + " ["@
        + result.dimension@ + "]"@;
    let differences = pass_lines(texts(d.unexpected_passes@)) + failure_lines(
        d.unexpected_failures@,
    );
    if failed.len() == 0 {
        assert(baseline_lines(result, d) =~= seq![head] + differences + seq![""@]);
    } else {
        assert(baseline_lines(result, d) =~= seq![
            head,
            "    failed: "@ + joined(failed, ", "@),
        ] + differences + seq![""@]);
    }
}

/// Each fixture adds its lines and its counts: failures that are known, failures that are not, and
/// passes that are not.
pub proof fn one_more_fixture(cases: Seq<EvalCaseResult>, diffs: Seq<BaselineDiff>, n: int)
    requires
        0 <= n,
    ensures
        all_baseline_lines(cases, diffs, 0) == Seq::<Seq<char>>::empty(),
        all_baseline_lines(cases, diffs, n + 1) == all_baseline_lines(cases, diffs, n)
            + baseline_lines(cases[n], diffs[n]),
        known_total(cases, diffs, 0) == 0,
        known_total(cases, diffs, n + 1) == known_total(cases, diffs, n) + (failed_list(
            cases[n].checks@,
        ).len() - diffs[n].unexpected_failures@.len()),
        failure_total(diffs, 0) == 0,
        failure_total(diffs, n + 1) == failure_total(diffs, n)
            + diffs[n].unexpected_failures@.len(),
        pass_total(diffs, 0) == 0,
        pass_total(diffs, n + 1) == pass_total(diffs, n) + diffs[n].unexpected_passes@.len(),
{
}

/// The report against a baseline tells every fixture and then the sums.
pub proof fn what_the_baseline_report_tells(cases: Seq<EvalCaseResult>, diffs: Seq<BaselineDiff>)
    ensures
        ({
            let n = cases.len() as int;
            baseline_report(cases, diffs) == all_baseline_lines(cases, diffs, n) + seq![
                "-------------------------------------------------"@,
                summary("Cases"@, decimal(cases.len())),
                summary("Fully passed"@, decimal(clean_cases(cases))),
                ""@,
                summary("Checks"@, decimal(all_checks(cases))),
                summary("Passed"@, decimal(all_passed(cases))),
                summary("Known failures"@, decimal(known_total(cases, diffs, n) as nat)),
                summary("Unexpected failures"@, decimal(failure_total(diffs, n) as nat)),
                summary("Unexpected passes"@, decimal(pass_total(diffs, n) as nat)),
            ]
        }),
{
    let n = cases.len() as int;
    assert(baseline_report(cases, diffs) =~= all_baseline_lines(cases, diffs, n) + seq![
        "-------------------------------------------------"@,
        summary("Cases"@, decimal(cases.len())),
        summary("Fully passed"@, decimal(clean_cases(cases))),
        ""@,
        summary("Checks"@, decimal(all_checks(cases))),
        summary("Passed"@, decimal(all_passed(cases))),
        summary("Known failures"@, decimal(known_total(cases, diffs, n) as nat)),
        summary("Unexpected failures"@, decimal(failure_total(diffs, n) as nat)),
        summary("Unexpected passes"@, decimal(pass_total(diffs, n) as nat)),
    ]);
}

/// Of the checks of a fixture those that failed are told, in order, each with what was found.
pub proof fn one_more_check(checks: Seq<CheckResult>, c: CheckResult)
    ensures
        detail_lines(Seq::empty()) == Seq::<Seq<char>>::empty(),
        c.passed ==> detail_lines(checks.push(c)) == detail_lines(checks),
        !c.passed ==> detail_lines(checks.push(c)) == detail_lines(checks) + seq![
            "    ✗ "@ + c.id@,
            "      "@ + c.detail@,
        ],
{
    assert(checks.push(c).drop_last() =~= checks);
    if !c.passed {
        assert(detail_lines(checks.push(c)) =~= detail_lines(checks) + seq![
            "    ✗ "@ + c.id@,
            "      "@ + c.detail@,
        ]);
    }
}

/// A fixture passes where every check does, and its count of passed checks is told.
pub proof fn what_is_told_of_a_measured_fixture(result: EvalCaseResult, cases: Seq<EvalCaseResult>)
    ensures
        ({
            let total = result.checks@.len();
            let passed = passed_count(result.checks@);
            let counts = "    "@ + decimal(passed) + " / "@ + decimal(total) + " checks"@;
            &&& passed == total ==> measured_lines(result) == seq![
                "["@ + "PASS"@ + "] "@ + result.fixture_name@,
                counts,
            ] + detail_lines(result.checks@) + seq![""@]
            &&& passed != total ==> measured_lines(result) == seq![
                "["@ + "FAIL"@ + "] "@ + result.fixture_name@,
                counts,
            ] + detail_lines(result.checks@) + seq![""@]
        }),
        all_measured_lines(Seq::empty()) == Seq::<Seq<char>>::empty(),
        all_measured_lines(cases.push(result)) == all_measured_lines(cases) + measured_lines(
            result,
        ),
{
    assert(cases.push(result).drop_last() =~= cases);
}

/// The report on a measurement tells every fixture and then the sums.
pub proof fn what_the_measurement_report_tells(cases: Seq<EvalCaseResult>)
    ensures
        measurement_report(cases) == all_measured_lines(cases) + seq![
            "-------------------------------------------------"@,
            summary("Cases"@, decimal(cases.len())),
            summary(
                "Fully passed"@,
                decimal(clean_cases(cases)) + " / "@ + decimal(cases.len()),
            ),
            ""@,
            summary("Checks"@, decimal(all_checks(cases))),
            summary("Passed"@, decimal(all_passed(cases))),
            summary("Failed"@, decimal((all_checks(cases) - all_passed(cases)) as nat)),
        ],
{
    assert(measurement_report(cases) =~= all_measured_lines(cases) + seq![
        "-------------------------------------------------"@,
        summary("Cases"@, decimal(cases.len())),
        summary("Fully passed"@, decimal(clean_cases(cases)) + " / "@ + decimal(cases.len())),
        ""@,
        summary("Checks"@, decimal(all_checks(cases))),
        summary("Passed"@, decimal(all_passed(cases))),
        summary("Failed"@, decimal((all_checks(cases) - all_passed(cases)) as nat)),
    ]);
}

} // verus!
