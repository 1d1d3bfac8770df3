//! Which models an agent offers.
use noending::agent_runtime::discovery::{
    codex, discover_runtime_options, effort_levels_for, pi, probe_arguments,
};
use noending::commands::agents::refresh_agent_runtime_options;
use noending::domain::Agent;

#[test]
fn lists_only_visible_models_and_carries_their_reasoning_levels() {
    let raw = r#"{"models":[
            {"slug":"gpt-5.6-luna","display_name":"GPT-5.6-Luna","visibility":"list",
             "supported_reasoning_levels":[{"effort":"low"},{"effort":"high"}]},
            {"slug":"codex-auto-review","visibility":"hide","supported_reasoning_levels":[]},
            {"visibility":"list","display_name":"entry without a slug"}
        ]}"#;
    let models = codex::parse(raw).expect("catalog");
    assert_eq!(models.len(), 1, "hidden and slug-less entries are skipped");
    assert_eq!(models[0].id, "gpt-5.6-luna");
    assert_eq!(models[0].provider, None, "codex has no provider dimension");
    assert_eq!(
        models[0].supported_efforts,
        vec!["low".to_string(), "high".to_string()]
    );
}

#[test]
fn unparsable_output_is_an_error_the_caller_turns_into_a_warning() {
    assert!(codex::parse("").is_err());
    assert!(codex::parse(r#"{"nope":[]}"#).is_err());
}

#[test]
fn reads_the_real_table_shape_and_keeps_provider_pairing() {
    let raw = "provider      model                         context  max-out  thinking  images
openai-codex  gpt-5.6-luna                  272K     128K     yes       yes
lmstudio      qwen/qwen3.8-27b              208.4K   100K     yes       yes
deepseek      deepseek-v4-pro               1M       384K     no        no
";
    let models = pi::parse(raw);
    assert_eq!(models.len(), 3);
    assert_eq!(models[0].provider.as_deref(), Some("openai-codex"));
    assert_eq!(models[1].id, "qwen/qwen3.8-27b");
    assert_eq!(
        models[1].supported_efforts.first().map(String::as_str),
        Some("off")
    );
    assert_eq!(
        models[2].supported_efforts,
        vec!["off".to_string()],
        "a model without thinking only accepts off"
    );
}

#[test]
fn a_header_only_or_garbled_table_yields_no_models() {
    assert!(pi::parse("").is_empty());
    assert!(pi::parse("provider  model  context  max-out  thinking  images\n").is_empty());
    assert!(pi::parse("nope\n").is_empty());
}

#[test]
fn async_seam_returns_discovery_without_a_cli_spawn() {
    let not_asked: Result<String, String> = Err("not asked".to_string());
    let discovery = discover_runtime_options(Agent::ClaudeCode, &not_asked);
    assert_eq!(discovery.model_source, "suggested");
    assert!(!discovery.models.is_empty());
    assert!(discovery.warnings.is_empty());
}

#[test]
fn a_failed_probe_is_a_warning_and_no_models() {
    let failed: Result<String, String> = Err("spawn failed".to_string());
    for agent in [Agent::Codex, Agent::Pi] {
        let d = discover_runtime_options(agent, &failed);
        assert!(d.models.is_empty());
        assert_eq!(d.model_source, "unavailable");
        assert_eq!(d.warnings.len(), 1);
        assert!(d.warnings[0].contains("spawn failed"));
    }
}

#[test]
fn an_unreadable_catalog_names_what_is_wrong_with_it() {
    let garbage: Result<String, String> = Ok("not json".to_string());
    let d = discover_runtime_options(Agent::Codex, &garbage);
    assert_eq!(d.model_source, "unavailable");
    assert_eq!(d.warnings.len(), 1);
}

#[test]
fn only_codex_and_pi_are_asked() {
    assert_eq!(probe_arguments(Agent::Codex), vec!["debug", "models"]);
    assert_eq!(probe_arguments(Agent::Pi), vec!["--list-models"]);
    assert!(probe_arguments(Agent::ClaudeCode).is_empty());
    assert!(effort_levels_for(Agent::Gemini).is_empty());
    assert!(!effort_levels_for(Agent::Codex).is_empty());
}

#[test]
fn an_unknown_agent_cannot_be_asked() {
    let none: Result<String, String> = Err("x".to_string());
    let e = refresh_agent_runtime_options("nobody", &none).err().unwrap();
    assert_eq!(e.message(), "未知 Agent: nobody");
    assert!(refresh_agent_runtime_options("claude_code", &none).is_ok());
}
