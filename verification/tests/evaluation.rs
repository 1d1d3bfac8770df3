//! Measuring how well contexts are extracted.
use noending::context_eval::cli::{
    build_extractor, corpus_files, parse_args, render_baseline_report, render_measurement_report,
    select_case, summary_line, Extractor, ExtractorKind, Invocation,
};
use noending::context_eval::corpus::{ContextExpectations, ExpectedCore};
use noending::context_eval::fixture::agent_by_name;
use noending::context_eval::gold::{evaluate_extractor_gold, ExtractorRun, GoldMismatch};
use noending::context_eval::{
    evaluate_extractor, load_fixture, run_domain_golden, setup_fixture, CheckResult,
    ContextItemExpectation, ContextQualityFixture, EvalCaseResult, EvalReport, ExpectedCoreItem,
    ExpectedMutation, ExtractorGold, FixtureEvent, FixtureGold, FixtureInitialItem, FixtureInput,
    FixtureSession, FixtureWorkstream, ItemStatusExpectation, StructuralMutationExpectation,
    CONFLICTS_CHECK_ID,
};
use noending::domain::Agent;
use noending::sync::ContextMutation;

const NOW: &str = "2026-09-26T08:00:00Z";

fn s(text: &str) -> String {
    text.to_string()
}

fn expectation(id: &str) -> StructuralMutationExpectation {
    StructuralMutationExpectation {
        id: s(id),
        op: vec![s("add")],
        workstream_id: Some(s("w")),
        item_kind: vec![s("decision"), s("constraint")],
        item_id: None,
        title_contains: vec![s("SQLite")],
        content_contains: Vec::new(),
        authority: None,
        source_events: vec![1],
    }
}

fn fixture() -> ContextQualityFixture {
    ContextQualityFixture {
        name: s("storage"),
        description: s("a decision is found"),
        dimension: s("decisions"),
        input: FixtureInput {
            workstreams: vec![FixtureWorkstream {
                id: s("w"),
                title: s("W"),
                description: String::new(),
            }],
            initial_context: vec![FixtureInitialItem {
                id: s("i"),
                workstream_id: s("w"),
                kind: s("goal"),
                title: s("ship"),
                content: s("ship it"),
                authority: s("user_explicit"),
                status: s("active"),
            }],
            session: FixtureSession {
                agent: s("Codex"),
                title: s("t"),
            },
            events: vec![
                FixtureEvent {
                    sequence: 1,
                    kind: s("user_message"),
                    text: s("用 SQLite"),
                },
                FixtureEvent {
                    sequence: 2,
                    kind: s("assistant_message"),
                    text: s("好"),
                },
            ],
        },
        recorded_model_output: s("{}"),
        gold: FixtureGold {
            mutations: vec![ExpectedMutation {
                op: s("add"),
                workstream_id: Some(s("w")),
                item_kind: Some(s("decision")),
                item_id: None,
                title: Some(s("用 SQLite")),
                authority: None,
            }],
            effective_context: vec![ExpectedCore {
                workstream_id: s("w"),
                items: vec![ExpectedCoreItem {
                    kind: s("goal"),
                    title: s("ship"),
                }],
            }],
            conflicts_count: 0,
        },
        extractor_gold: ExtractorGold {
            required_mutations: vec![expectation("found")],
            forbidden_mutations: Vec::new(),
            required_context: vec![ContextExpectations {
                workstream_id: s("w"),
                items: vec![ContextItemExpectation {
                    id: s("goal"),
                    kind: Some(s("goal")),
                    title_contains: vec![s("ship")],
                }],
            }],
            forbidden_context: Vec::new(),
            required_item_status: vec![ItemStatusExpectation {
                id: s("kept"),
                item_id: s("i"),
                status: s("active"),
            }],
            conflicts_count: 0,
        },
        heuristic_expected_failed_checks: Vec::new(),
    }
}

fn kinds() -> Vec<String> {
    vec![s("goal"), s("decision")]
}

fn decision(refs: Vec<String>) -> ContextMutation {
    ContextMutation::Add {
        workstream_id: s("w"),
        item_kind: s("decision"),
        title: s("用 SQLite"),
        content: s("数据库"),
        source_refs: refs,
        authority: s("user_explicit"),
    }
}

#[test]
fn a_fixture_becomes_a_store() {
    let env = setup_fixture(&fixture(), NOW).ok().unwrap();
    assert_eq!(env.session.agent, Agent::Codex);
    assert_eq!(env.owner_workstream_id, "w");
    assert_eq!(env.session.owner_workstream_id, None);
    assert_eq!(env.session_messages.len(), 2);
    assert_eq!(env.store.items.len(), 1);
    assert_eq!(env.ref_map.len(), 2);
    assert_eq!(env.seeded.len(), 2);
}

#[test]
fn a_fixture_may_name_an_agent_by_its_product() {
    let mut f = fixture();
    let product = Agent::ClaudeCode.as_str().split('_').next().unwrap().to_string();
    f.input.session.agent = product.to_uppercase();
    let env = setup_fixture(&f, NOW).ok().unwrap();
    assert_eq!(env.session.agent, Agent::ClaudeCode);
}

#[test]
fn checks_are_met_or_say_what_was_found() {
    let f = fixture();
    let env = setup_fixture(&f, NOW).ok().unwrap();
    let first = format!("session-message:{}", env.session_messages[0].id);
    let good = evaluate_extractor_gold(
        &f,
        &env.store,
        &env.session_messages,
        &vec![decision(vec![first])],
        &kinds(),
    );
    assert_eq!(good.passed_checks(), good.checks.len());
    assert!(good.checks.iter().any(|c| c.id == CONFLICTS_CHECK_ID));
    assert!(good.failed_check_ids().is_empty());
    let bad = evaluate_extractor_gold(
        &f,
        &env.store,
        &env.session_messages,
        &Vec::new(),
        &kinds(),
    );
    assert_eq!(bad.failed_check_ids().len(), 1);
    assert!(bad.failed_check_ids()[0].ends_with(":found"));
    assert!(!bad.checks.iter().find(|c| !c.passed).unwrap().detail.is_empty());
}

#[test]
fn a_broken_run_is_an_error() {
    let f = fixture();
    let env = setup_fixture(&f, NOW).ok().unwrap();
    let run = ExtractorRun {
        extractor: s("cli"),
        inputs: Ok(()),
        extracted: Err(s("timeout")),
        merged: Err(s("never")),
    };
    let e = evaluate_extractor(&f, &env.session_messages, &run, &kinds()).err().unwrap();
    assert_eq!(
        e.message(),
        "fixture storage: extractor 'cli' failed: timeout"
    );
}

#[test]
fn a_recorded_answer_has_to_lead_to_the_expected_state() {
    let f = fixture();
    let env = setup_fixture(&f, NOW).ok().unwrap();
    let parsed: Result<Vec<ContextMutation>, String> = Ok(vec![decision(Vec::new())]);
    let merged = Ok(env.store);
    assert!(run_domain_golden(&f, &parsed, &merged, &kinds()).ok().unwrap().is_none());
    let none: Result<Vec<ContextMutation>, String> = Ok(Vec::new());
    match run_domain_golden(&f, &none, &merged, &kinds()).ok().unwrap() {
        Some(GoldMismatch::MutationCount { expected, actual }) => {
            assert_eq!((expected, actual), (1, 0));
        }
        _ => panic!("the number of changes differs"),
    }
}

#[test]
fn a_fixture_with_ambiguous_checks_is_refused() {
    assert!(load_fixture(Ok(fixture())).is_ok());
    let mut twice = fixture();
    twice.extractor_gold.required_mutations.push(expectation("found"));
    assert!(load_fixture(Ok(twice)).is_err());
    assert!(load_fixture(Err(s("not JSON"))).is_err());
    let mut unnamed = fixture();
    unnamed.extractor_gold.required_item_status[0].id = String::new();
    let e = load_fixture(Ok(unnamed)).err().unwrap();
    assert_eq!(
        e.message(),
        "fixture 'storage': item_status entry has an empty id"
    );
    let mut open = fixture();
    open.extractor_gold.forbidden_mutations.push(StructuralMutationExpectation {
        id: s("any"),
        op: Vec::new(),
        workstream_id: None,
        item_kind: Vec::new(),
        item_id: None,
        title_contains: Vec::new(),
        content_contains: Vec::new(),
        authority: None,
        source_events: Vec::new(),
    });
    assert!(load_fixture(Ok(open)).err().unwrap().message().contains("would match every mutation"));
}

fn result(name: &str, checks: &[(&str, bool)]) -> EvalCaseResult {
    EvalCaseResult {
        fixture_name: s(name),
        dimension: s("dim"),
        description: String::new(),
        checks: checks
            .iter()
            .map(|(id, passed)| CheckResult {
                id: s(id),
                passed: *passed,
                detail: if *passed { String::new() } else { s("missing") },
            })
            .collect(),
    }
}

#[test]
fn the_baseline_is_held_against_what_failed() {
    let r = result("a", &[("x", false), ("y", true), ("b", false)]);
    assert_eq!(r.failed_check_ids(), vec!["b", "x"]);
    let d = r.baseline_diff(&vec![s("x"), s("y")]);
    assert_eq!(d.unexpected_failures.len(), 1);
    assert_eq!(d.unexpected_failures[0].id, "b");
    assert_eq!(d.unexpected_passes, vec!["y"]);
    assert!(!d.is_clean());
    assert!(r.baseline_diff(&vec![s("b"), s("x")]).is_clean());
}

#[test]
fn a_report_tells_known_failures_from_new_ones() {
    let cases = vec![
        result("a", &[("x", true)]),
        result("b", &[("x", false), ("y", true)]),
        result("c", &[("x", false), ("y", true)]),
    ];
    let baselines = [vec![], vec![s("x")], vec![s("y")]];
    let diffs: Vec<_> = cases
        .iter()
        .zip(baselines.iter())
        .map(|(c, b)| c.baseline_diff(b))
        .collect();
    let report = EvalReport::new(cases);
    let lines = render_baseline_report(&report, &diffs);
    assert_eq!(
        lines,
        vec![
            "[PASS] a [dim]",
            "",
            "[FAIL (known)] b [dim]",
            "    failed: x",
            "",
            "[MISMATCH] c [dim]",
            "    failed: x",
            "    unexpected pass (re-baseline): y",
            "    unexpected failure: x: missing",
            "",
            "-------------------------------------------------",
            "Cases                    3",
            "Fully passed             1",
            "",
            "Checks                   5",
            "Passed                   3",
            "Known failures           1",
            "Unexpected failures      1",
            "Unexpected passes        1",
        ]
    );
}

#[test]
fn a_measurement_tells_what_passed() {
    let report = EvalReport::new(vec![
        result("a", &[("x", true)]),
        result("b", &[("x", false), ("y", true)]),
    ]);
    let lines = render_measurement_report(&report);
    assert_eq!(
        lines,
        vec![
            "[PASS] a",
            "    1 / 1 checks",
            "",
            "[FAIL] b",
            "    1 / 2 checks",
            "    ✗ x",
            "      missing",
            "",
            "-------------------------------------------------",
            "Cases                    2",
            "Fully passed         1 / 2",
            "",
            "Checks                   3",
            "Passed                   2",
            "Failed                   1",
        ]
    );
    assert_eq!(summary_line("Pass rate", "66.7%"), "Pass rate            66.7%");
    assert_eq!(
        summary_line("A label longer than the column", "1234567"),
        "A label longer than the column1234567"
    );
}

fn args(list: &[&str]) -> Vec<String> {
    list.iter().map(|a| s(a)).collect()
}

#[test]
fn arguments_are_read() {
    match parse_args(&args(&["--extractor", "cli", "--agent", "pi", "--case", "a"])).ok().unwrap() {
        Invocation::Run(a) => {
            assert_eq!(a.extractor, ExtractorKind::Cli);
            assert_eq!(a.agent.as_deref(), Some("pi"));
            assert_eq!(a.case.as_deref(), Some("a"));
            assert_eq!(a.model, None);
        }
        Invocation::Help => panic!("nobody asked for help"),
    }
    assert!(matches!(
        parse_args(&args(&["--model", "m", "-h", "junk"])).ok(),
        Some(Invocation::Help)
    ));
    let faults = [
        (args(&["--extractor", "x"]), "unknown --extractor 'x' (expected heuristic | cli)"),
        (args(&["--model"]), "missing value for --model"),
        (args(&["junk"]), "unexpected argument 'junk' (see --help)"),
    ];
    for (argv, message) in faults {
        assert_eq!(parse_args(&argv).err().unwrap().message(), message);
    }
}

fn run_of(list: &[&str]) -> Result<Extractor, String> {
    match parse_args(&args(list)).ok().unwrap() {
        Invocation::Run(a) => build_extractor(&a).map_err(|e| s(e.message())),
        Invocation::Help => panic!("nobody asked for help"),
    }
}

#[test]
fn what_is_measured_is_what_the_arguments_say() {
    assert!(matches!(run_of(&[]), Ok(Extractor::Heuristic)));
    match run_of(&["--extractor", "cli", "--model", " m "]).ok().unwrap() {
        Extractor::Cli(x) => {
            assert_eq!(x.agent, Agent::Codex);
            assert_eq!(x.opts.model.as_deref(), Some("m"));
        }
        Extractor::Heuristic => panic!("an agent was asked for"),
    }
    assert_eq!(
        run_of(&["--model", "m"]).err().unwrap(),
        "--agent/--model/--provider/--effort are only valid with --extractor cli"
    );
    assert_eq!(
        run_of(&["--extractor", "cli", "--agent", "x"]).err().unwrap(),
        "unknown --agent 'x' (expected codex | claude_code | pi)"
    );
    assert!(run_of(&["--extractor", "cli", "--provider", "p"]).is_err());
}

#[test]
fn a_corpus_is_run_in_order() {
    let names = args(&["b.json", "notes.txt", "a.json", ".json"]);
    assert_eq!(corpus_files("/c", &names).ok().unwrap(), vec!["a.json", "b.json"]);
    assert_eq!(
        corpus_files("/c", &args(&["x.txt"])).err().unwrap().message(),
        "no .json fixtures found in /c"
    );
    let all = args(&["a", "b"]);
    assert_eq!(select_case(&all, &None).ok().unwrap(), vec![0, 1]);
    assert_eq!(select_case(&all, &Some(s("b"))).ok().unwrap(), vec![1]);
    assert_eq!(
        select_case(&all, &Some(s("c"))).err().unwrap().message(),
        "case 'c' not found in corpus; available: a, b"
    );
}

#[test]
fn all_checks_pass_exactly_where_every_case_is_clean() {
    let clean = EvalReport::new(vec![
        result("a", &[("x", true), ("y", true)]),
        result("b", &[]),
    ]);
    assert_eq!(clean.total_checks(), 2);
    assert_eq!(clean.passed_checks(), 2);
    assert_eq!(clean.fully_passed_cases(), 2);
    let flawed = EvalReport::new(vec![
        result("a", &[("x", true), ("y", false)]),
        result("b", &[("z", true)]),
    ]);
    assert_eq!(flawed.total_checks(), 3);
    assert_eq!(flawed.passed_checks(), 2);
    assert_eq!(flawed.fully_passed_cases(), 1);
}

#[test]
fn a_name_that_is_no_agents_stands_for_codex() {
    assert_eq!(agent_by_name("openclaw"), Agent::AutoClaw);
    assert_eq!(agent_by_name("deepseek_harness"), Agent::Dsh);
    assert_eq!(agent_by_name("claude_code"), Agent::ClaudeCode);
    assert_eq!(agent_by_name("Pi"), Agent::Codex, "names are in small letters");
    assert_eq!(agent_by_name("gemini"), Agent::Codex);
}
