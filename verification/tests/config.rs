use symposium::collections::StringMap;
use symposium::config::env::{expand_config, expand_vars, substitute};
use symposium::config::schema::{
    default_mcp_type, default_sentry_id_prefix, default_sentry_mcp_url, default_sentry_min_events,
    McpServerConfig, PollingConfig, ReviewerFilter, ServiceConfig,
};
use symposium::config::workflow::{complete_config, split_workflow};
use symposium::error::Error;
use symposium::time::Duration;

fn env(entries: &[(&str, &str)]) -> StringMap<String> {
    let mut map = StringMap::new();
    for (k, v) in entries {
        map.insert(k.to_string(), v.to_string());
    }
    map
}

#[test]
fn expand_env_var() {
    let env = env(&[("SYMPOSIUM_TEST_VAR", "hello")]);
    assert_eq!(expand_vars("$SYMPOSIUM_TEST_VAR", &env), "hello");
    assert_eq!(expand_vars("${SYMPOSIUM_TEST_VAR}", &env), "hello");
    assert_eq!(
        expand_vars("prefix-$SYMPOSIUM_TEST_VAR-suffix", &env),
        "prefix-hello-suffix"
    );
}

#[test]
fn expand_tilde() {
    let home = "/home/user";
    assert_eq!(
        expand_vars("~/foo/bar", &env(&[("HOME", home)])),
        format!("{}/foo/bar", home)
    );
}

#[test]
fn expand_missing_var() {
    assert_eq!(expand_vars("$SYMPOSIUM_NONEXISTENT_VAR_XYZ", &env(&[])), "");
}

#[test]
fn expand_mcp_server_env_vars() {
    let mut config = ServiceConfig::default();
    config.mcp_servers.insert(
        "test".to_string(),
        McpServerConfig {
            server_type: "http".to_string(),
            url: Some("https://$SYMPOSIUM_MCP_KEY.example.com".to_string()),
            command: Some("$SYMPOSIUM_MCP_KEY".to_string()),
            args: Some(vec!["--token=$SYMPOSIUM_MCP_KEY".to_string()]),
            env: Some(env(&[("API_KEY", "$SYMPOSIUM_MCP_KEY")])),
        },
    );

    expand_config(&mut config, &env(&[("SYMPOSIUM_MCP_KEY", "expanded-secret")]));

    let server = config.mcp_servers.get("test").unwrap();
    assert_eq!(server.url.as_deref(), Some("https://expanded-secret.example.com"));
    assert_eq!(server.command.as_deref(), Some("expanded-secret"));
    assert_eq!(
        server.args.as_deref(),
        Some(["--token=expanded-secret".to_string()].as_slice())
    );
    assert_eq!(server.env.as_ref().unwrap().get("API_KEY").unwrap(), "expanded-secret");
}

#[test]
fn parse_missing_front_matter() {
    let result = split_workflow("no front matter here");
    assert!(result.is_err());
    assert!(matches!(result, Err(Error::Workflow(_))));
}

#[test]
fn parse_missing_closing_delimiter() {
    let result = split_workflow("---\ntracker:\n  kind: notion\n");
    assert!(result.is_err());
    assert!(matches!(result, Err(Error::Workflow(_))));
}

#[test]
fn workflow_files_hold_settings_and_a_prompt() {
    let content = "\n---\ntracker:\n  kind: notion\n---\n\nWork on {{ issue.identifier }}.\n";
    let (yaml, prompt) = split_workflow(content).unwrap();
    assert_eq!(yaml.trim(), "tracker:\n  kind: notion");
    assert_eq!(prompt, "Work on {{ issue.identifier }}.");
    let (yaml, prompt) = split_workflow("---\n---\nPrompt here.").unwrap();
    assert_eq!(yaml.trim(), "");
    assert_eq!(prompt, "Prompt here.");
}

#[test]
fn completed_settings_hold_the_prompt() {
    let mut config = ServiceConfig::default();
    config.workspace.root = "~/ws".to_string();
    let config = complete_config(config, "the prompt", &env(&[("HOME", "/h")]));
    assert_eq!(config.prompt_template, "the prompt");
    assert_eq!(config.workspace.root, "/h/ws");
    assert_eq!(config.tracker.kind, "notion");
    assert_eq!(config.server.port, 8080);
    assert!(!config.preflight.enabled);
    assert!(config.preflight.prompt_template.is_empty());
    assert!(config.review.enabled);
    assert!(config.review.prompt_template.is_empty());
    assert!(config.review.before_review.is_none());
    assert_eq!(config.mcp_servers.len(), 0);
    assert!(!config.sentry.enabled);
    assert!(!config.pr_review.enabled);
}

#[test]
fn variables_are_named_by_word_characters() {
    let env = env(&[("A", "1"), ("A_B", "2"), ("HOME", "/h")]);
    assert_eq!(expand_vars("$A_B ${A}_B $A.x", &env), "2 1_B 1.x");
    assert_eq!(expand_vars("cost: 5$", &env), "cost: 5$");
    assert_eq!(expand_vars("a~/b", &env), "a~/b");
    assert_eq!(expand_vars("~", &env), "/h");
    assert_eq!(expand_vars("~user", &env), "~user");
}

#[test]
fn substitution_alternates_parts_and_values() {
    let parts = vec!["x".to_string(), "y".to_string()];
    let found = vec![vec![Some("$A".to_string()), None, Some("A".to_string())]];
    assert_eq!(substitute(&parts, &found, &env(&[("A", "1")])), "x1y");
}

#[test]
fn settings_give_lengths_of_time() {
    let config = ServiceConfig::default();
    assert_eq!(PollingConfig { interval_ms: 5000 }.interval(), Duration::from_secs(5));
    assert_eq!(config.hooks.timeout(), Duration::from_millis(300_000));
    assert_eq!(
        config.codex.turn_timeout(),
        Duration::from_millis(config.codex.turn_timeout_ms)
    );
    assert_eq!(
        config.codex.stall_timeout(),
        Duration::from_millis(config.codex.stall_timeout_ms)
    );
    assert!(!config.pr_creation.is_workflow_dispatch());
}

#[test]
fn reviewers_are_chosen_by_keyword() {
    assert!(matches!(ReviewerFilter::from_keyword("all"), Ok(ReviewerFilter::All)));
    assert!(matches!(ReviewerFilter::from_keyword("humans"), Ok(ReviewerFilter::Humans)));
    assert!(ReviewerFilter::from_keyword("robots").is_err());
}

#[test]
fn sentry_settings_have_defaults() {
    assert_eq!(default_sentry_id_prefix(), "sentry:");
    assert_eq!(default_sentry_mcp_url(), "https://mcp.sentry.dev/mcp");
    assert_eq!(default_sentry_min_events(), ServiceConfig::default().sentry.min_events);
    assert_eq!(default_mcp_type(), "stdio");
}
