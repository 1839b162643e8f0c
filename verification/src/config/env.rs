//! Environment variables in configuration values.
use vstd::prelude::*;
use vstd::string::*;
use crate::collections::{lookup, StringMap};
use crate::config::schema::{
    CodexConfigView, HooksConfigView, McpServerConfig, McpServerConfigView, SentryConfigView,
    ServiceConfig, ServiceConfigView, TrackerConfigView, WorkspaceConfigView,
};
use crate::pattern::{captures, regex_captures, regex_split, split};
use crate::text::{has_prefix, slice, starts_with, str_eq, to_chars};

verus! {

/// The pattern of a variable: `${NAME}` or `$NAME`.
pub open spec fn variable_pattern() -> Seq<char> {
    r"\$\{([^}]+)\}|\$([A-Za-z_][A-Za-z0-9_]*)"@
}

/// The value of a variable, empty where the environment does not have it.
pub open spec fn value_of(env: Seq<(String, String)>, name: Seq<char>) -> Seq<char> {
    match lookup(env, name) {
        Some(v) => v@,
        None => seq![],
    }
}

/// The name that a match of the variable pattern holds.
pub open spec fn variable_name(groups: Seq<Option<Seq<char>>>) -> Seq<char> {
    if groups.len() > 1 && groups[1] is Some {
        groups[1]->0
    } else if groups.len() > 2 && groups[2] is Some {
        groups[2]->0
    } else {
        seq![]
    }
}

/// The parts with the value of each variable between them.
pub open spec fn substituted(
    parts: Seq<Seq<char>>,
    found: Seq<Seq<Option<Seq<char>>>>,
    env: Seq<(String, String)>,
) -> Seq<char>
    decreases parts.len(),
{
    if parts.len() == 0 {
        seq![]
    } else if parts.len() == 1 {
        parts[0]
    } else {
        let k = parts.len() - 2;
        let value = if k < found.len() {
            value_of(env, variable_name(found[k]))
        } else {
            seq![]
        };
        substituted(parts.drop_last(), found, env) + value + parts.last()
    }
}

/// A leading "~", alone or before "/", as the home directory, where the
/// environment names one.
pub open spec fn tilde_expanded(input: Seq<char>, env: Seq<(String, String)>) -> Seq<char> {
    match lookup(env, "HOME"@) {
        Some(home) => if input == "~"@ || has_prefix(input, "~/"@) {
            home@ + input.skip(1)
        } else {
            input
        },
        None => input,
    }
}

/// A value with `$VAR`, `${VAR}` and a leading `~` expanded.
pub open spec fn expanded(input: Seq<char>, env: Seq<(String, String)>) -> Seq<char> {
    let text = tilde_expanded(input, env);
    match (regex_split(variable_pattern(), text), regex_captures(variable_pattern(), text)) {
        (Some(parts), Some(found)) => substituted(parts, found, env),
        _ => text,
    }
}

/// An optional value with its variables expanded.
pub open spec fn expanded_opt(input: Option<Seq<char>>, env: Seq<(String, String)>) -> Option<
    Seq<char>,
> {
    match input {
        Some(s) => Some(expanded(s, env)),
        None => None,
    }
}

/// The parts with the value of each variable between them.
pub fn substitute(
    parts: &Vec<String>,
    found: &Vec<Vec<Option<String>>>,
    env: &StringMap<String>,
) -> (r: String)
    requires
        env.wf(),
    ensures
        r@ == substituted(parts.deep_view(), found.deep_view(), env@),
{
    let ghost ps = parts.deep_view();
    let ghost fs = found.deep_view();
    if parts.len() == 0 {
        return String::new();
    }
    let mut out = parts[0].clone();
    let mut i: usize = 1;
    assert(ps.take(1) =~= seq![ps[0]]);
    while i < parts.len()
        invariant
            1 <= i <= parts@.len(),
            ps == parts.deep_view(),
            fs == found.deep_view(),
            env.wf(),
            out@ == substituted(ps.take(i as int), fs, env@),
        decreases parts@.len() - i,
    {
        assert(ps.take(i + 1).drop_last() =~= ps.take(i as int));
        if i - 1 < found.len() {
            let groups = &found[i - 1];
            assert(fs[i - 1] == groups.deep_view());
            let mut name = String::new();
            if groups.len() > 1 && groups[1].is_some() {
                if let Some(n) = &groups[1] {
                    name = n.clone();
                }
            } else if groups.len() > 2 {
                if let Some(n) = &groups[2] {
                    name = n.clone();
                }
            }
            assert(name@ == variable_name(fs[i - 1]));
            if let Some(v) = env.get(name.as_str()) {
                out.append(v.as_str());
            } else {
                assert(out@ + value_of(env@, name@) =~= out@);
            }
        }
        out.append(parts[i].as_str());
        assert(out@ =~= substituted(ps.take(i + 1), fs, env@));
        i += 1;
    }
    assert(ps.take(i as int) =~= ps);
    out
}

/// Expand `$VAR`, `${VAR}`, and leading `~` in a string.
///
/// `env` holds the environment variables; one that it does not hold is empty.
pub fn expand_vars(input: &str, env: &StringMap<String>) -> (r: String)
    requires
        env.wf(),
    ensures
        r@ == expanded(input@, env@),
{
    let mut text = input.to_owned();
    if str_eq(input, "~") || starts_with(input, "~/") {
        if let Some(home) = env.get("HOME") {
            let v = to_chars(input);
            assert(v@.len() >= 1) by {
                reveal_strlit("~");
                reveal_strlit("~/");
            }
            let rest = slice(&v, 1, v.len());
            text = home.clone();
            text.append(rest.as_str());
            assert(text@ =~= tilde_expanded(input@, env@));
        }
    }
    let pattern = r"\$\{([^}]+)\}|\$([A-Za-z_][A-Za-z0-9_]*)";
    match (split(pattern, text.as_str()), captures(pattern, text.as_str())) {
        (Some(parts), Some(found)) => substitute(&parts, &found, env),
        _ => text,
    }
}

fn expand_opt(input: &Option<String>, env: &StringMap<String>) -> (r: Option<String>)
    requires
        env.wf(),
    ensures
        r.deep_view() == expanded_opt(input.deep_view(), env@),
{
    match input {
        Some(s) => Some(expand_vars(s.as_str(), env)),
        None => None,
    }
}

/// Each text with its variables expanded.
pub open spec fn expanded_all(args: Seq<Seq<char>>, env: Seq<(String, String)>) -> Seq<Seq<char>> {
    args.map_values(|a: Seq<char>| expanded(a, env))
}

/// Each value of a map with its variables expanded.
pub open spec fn expanded_values(
    m: Seq<(Seq<char>, Seq<char>)>,
    env: Seq<(String, String)>,
) -> Seq<(Seq<char>, Seq<char>)> {
    m.map_values(|e: (Seq<char>, Seq<char>)| (e.0, expanded(e.1, env)))
}

/// An MCP server with the variables of its url, command, arguments and
/// environment values expanded.
pub open spec fn expanded_server(
    s: McpServerConfigView,
    env: Seq<(String, String)>,
) -> McpServerConfigView {
    McpServerConfigView {
        server_type: s.server_type,
        url: expanded_opt(s.url, env),
        command: expanded_opt(s.command, env),
        args: match s.args {
            Some(a) => Some(expanded_all(a, env)),
            None => None,
        },
        env: match s.env {
            Some(m) => Some(expanded_values(m, env)),
            None => None,
        },
    }
}

/// A configuration with the variables of its expandable values expanded and
/// everything else as it is.
pub open spec fn expanded_config(
    c: ServiceConfigView,
    env: Seq<(String, String)>,
) -> ServiceConfigView {
    ServiceConfigView {
        tracker: TrackerConfigView {
            mcp_command: expanded(c.tracker.mcp_command, env),
            mcp_url: expanded_opt(c.tracker.mcp_url, env),
            database_id: expanded(c.tracker.database_id, env),
            ..c.tracker
        },
        workspace: WorkspaceConfigView { root: expanded(c.workspace.root, env), ..c.workspace },
        codex: CodexConfigView { command: expanded(c.codex.command, env), ..c.codex },
        hooks: HooksConfigView {
            after_create: expanded_opt(c.hooks.after_create, env),
            before_run: expanded_opt(c.hooks.before_run, env),
            after_run: expanded_opt(c.hooks.after_run, env),
            before_remove: expanded_opt(c.hooks.before_remove, env),
            ..c.hooks
        },
        sentry: SentryConfigView {
            org: expanded(c.sentry.org, env),
            project: expanded(c.sentry.project, env),
            mcp_url: expanded(c.sentry.mcp_url, env),
            query: expanded(c.sentry.query, env),
            ..c.sentry
        },
        mcp_servers: c.mcp_servers.map_values(
            |e: (Seq<char>, McpServerConfigView)| (e.0, expanded_server(e.1, env)),
        ),
        ..c
    }
}

fn expand_server(s: &McpServerConfig, env: &StringMap<String>) -> (r: McpServerConfig)
    requires
        env.wf(),
    ensures
        r.deep_view() == expanded_server(s.deep_view(), env@),
{
    let args = match &s.args {
        Some(args) => {
            let mut out: Vec<String> = Vec::new();
            let mut i: usize = 0;
            while i < args.len()
                invariant
                    i <= args@.len(),
                    env.wf(),
                    out.deep_view() == expanded_all(args.deep_view(), env@).take(i as int),
                decreases args@.len() - i,
            {
                let ghost before = out.deep_view();
                out.push(expand_vars(args[i].as_str(), env));
                assert(out.deep_view() =~= before.push(expanded(args@[i as int]@, env@)));
                assert(expanded_all(args.deep_view(), env@).take(i + 1) =~= before.push(
                    expanded(args@[i as int]@, env@),
                ));
                i += 1;
            }
            assert(out.deep_view() =~= expanded_all(args.deep_view(), env@));
            Some(out)
        },
        None => None,
    };
    let vars = match &s.env {
        Some(m) => {
            let mut entries: Vec<(String, String)> = Vec::new();
            let ghost want = expanded_values(m.deep_view(), env@);
            let mut i: usize = 0;
            while i < m.entries.len()
                invariant
                    i <= m@.len(),
                    env.wf(),
                    want == expanded_values(m.deep_view(), env@),
                    entries.deep_view() == want.take(i as int),
                decreases m@.len() - i,
            {
                let ghost before = entries.deep_view();
                let e = &m.entries[i];
                entries.push((e.0.clone(), expand_vars(e.1.as_str(), env)));
                assert(entries.deep_view() =~= before.push((e.0@, expanded(e.1@, env@))));
                assert(want[i as int] == (e.0@, expanded(e.1@, env@)));
                assert(want.take(i + 1) =~= before.push(want[i as int]));
                i += 1;
            }
            let out = StringMap { entries };
            assert(want.take(i as int) =~= want);
            assert(out.deep_view() =~= entries.deep_view());
            Some(out)
        },
        None => None,
    };
    McpServerConfig {
        server_type: s.server_type.clone(),
        url: expand_opt(&s.url, env),
        command: expand_opt(&s.command, env),
        args,
        env: vars,
    }
}

/// Apply env expansion to key string fields in a ServiceConfig.
pub fn expand_config(config: &mut ServiceConfig, env: &StringMap<String>)
    requires
        env.wf(),
    ensures
        final(config).deep_view() == expanded_config(old(config).deep_view(), env@),
        old(config).mcp_servers.wf() ==> final(config).mcp_servers.wf(),
{
    let ghost start = config.deep_view();
    config.tracker.mcp_command = expand_vars(config.tracker.mcp_command.as_str(), env);
    config.tracker.mcp_url = expand_opt(&config.tracker.mcp_url, env);
    config.tracker.database_id = expand_vars(config.tracker.database_id.as_str(), env);
    config.workspace.root = expand_vars(config.workspace.root.as_str(), env);
    config.codex.command = expand_vars(config.codex.command.as_str(), env);
    config.hooks.after_create = expand_opt(&config.hooks.after_create, env);
    config.hooks.before_run = expand_opt(&config.hooks.before_run, env);
    config.hooks.after_run = expand_opt(&config.hooks.after_run, env);
    config.hooks.before_remove = expand_opt(&config.hooks.before_remove, env);
    config.sentry.org = expand_vars(config.sentry.org.as_str(), env);
    config.sentry.project = expand_vars(config.sentry.project.as_str(), env);
    config.sentry.mcp_url = expand_vars(config.sentry.mcp_url.as_str(), env);
    config.sentry.query = expand_vars(config.sentry.query.as_str(), env);
    let ghost servers = config.mcp_servers.deep_view();
    let ghost want = expanded_config(start, env@).mcp_servers;
    let mut entries: Vec<(String, McpServerConfig)> = Vec::new();
    let mut i: usize = 0;
    assert(servers =~= start.mcp_servers);
    while i < config.mcp_servers.entries.len()
        invariant
            i <= config.mcp_servers@.len(),
            env.wf(),
            servers == config.mcp_servers.deep_view(),
            want.len() == servers.len(),
            forall|k: int|
                0 <= k < servers.len() ==> #[trigger] want[k] == (
                    servers[k].0,
                    expanded_server(servers[k].1, env@),
                ),
            entries.deep_view() == want.take(i as int),
        decreases config.mcp_servers@.len() - i,
    {
        let ghost before = entries.deep_view();
        let e = &config.mcp_servers.entries[i];
        entries.push((e.0.clone(), expand_server(&e.1, env)));
        assert(servers[i as int] == (e.0@, e.1.deep_view()));
        assert(entries.deep_view() =~= before.push(want[i as int]));
        assert(want.take(i + 1) =~= before.push(want[i as int]));
        i += 1;
    }
    assert(want.take(i as int) =~= want);
    config.mcp_servers = StringMap { entries };
    assert(config.mcp_servers.deep_view() =~= want);
    assert(config.deep_view() =~= expanded_config(start, env@));
    proof {
        let before = old(config).mcp_servers;
        let after = config.mcp_servers;
        if before.wf() {
            assert forall|a: int, b: int| 0 <= a < b < after@.len() implies (
            #[trigger] after@[a]).0@ != (#[trigger] after@[b]).0@ by {
                assert(after.deep_view()[a].0 == before.deep_view()[a].0);
                assert(after.deep_view()[b].0 == before.deep_view()[b].0);
                assert(before@[a].0@ != before@[b].0@);
            }
        }
    }
}

/// A variable has the value that the environment gives it, and none where it does not
/// have the variable.
pub proof fn law_variable_has_its_value(env: Seq<(String, String)>, name: Seq<char>, i: int)
    requires
        crate::collections::unique_keys(env),
    ensures
        0 <= i < env.len() && env[i].0@ == name ==> value_of(env, name) == env[i].1@,
        (forall|k: int| 0 <= k < env.len() ==> (#[trigger] env[k]).0@ != name) ==> value_of(
            env,
            name,
        ).len() == 0,
{
    if 0 <= i < env.len() && env[i].0@ == name {
        crate::collections::lemma_lookup_at(env, i);
    }
}

/// The name of a variable is what stands between its braces, or else what follows its
/// dollar sign.
pub proof fn law_variable_name(groups: Seq<Option<Seq<char>>>)
    requires
        groups.len() == 3,
    ensures
        groups[1] matches Some(name) ==> variable_name(groups) == name,
        groups[1] is None ==> (groups[2] matches Some(name) ==> variable_name(groups) == name),
{
}

/// Text without variables stays; and what stands before a variable is followed by the
/// variable's value and then by what stands behind it.
pub proof fn law_values_stand_for_variables(
    parts: Seq<Seq<char>>,
    found: Seq<Seq<Option<Seq<char>>>>,
    env: Seq<(String, String)>,
    last: Seq<char>,
)
    ensures
        substituted(seq![last], found, env) == last,
        0 < parts.len() <= found.len() ==> substituted(parts.push(last), found, env) == substituted(
            parts,
            found,
            env,
        ) + value_of(env, variable_name(found[parts.len() - 1])) + last,
{
    assert(parts.push(last).drop_last() =~= parts);
}

/// A leading "~", alone or before a slash, stands for the home directory, where the
/// environment has one; every other "~" stays.
pub proof fn law_tilde_is_home(env: Seq<(String, String)>, rest: Seq<char>, input: Seq<char>)
    ensures
        lookup(env, "HOME"@) matches Some(home) ==> tilde_expanded("~"@, env) == home@,
        lookup(env, "HOME"@) matches Some(home) ==> tilde_expanded("~/"@ + rest, env) == home@ + "/"@
            + rest,
        lookup(env, "HOME"@) is None ==> tilde_expanded(input, env) == input,
        input.len() > 0 && input[0] != '~' ==> tilde_expanded(input, env) == input,
        input.len() > 1 && input[1] != '/' ==> tilde_expanded(input, env) == input,
        input.len() == 0 ==> tilde_expanded(input, env) == input,
{
    reveal_strlit("~");
    reveal_strlit("~/");
    reveal_strlit("/");
    let t = "~"@;
    let ts = "~/"@;
    assert(t.len() == 1 && t[0] == '~' && ts.len() == 2 && ts[0] == '~' && ts[1] == '/');
    let full = ts + rest;
    assert(full.subrange(0, 2) =~= ts);
    if let Some(home) = lookup(env, "HOME"@) {
        assert(home@ + t.skip(1) =~= home@);
        assert(home@ + full.skip(1) =~= home@ + "/"@ + rest);
    }
    if has_prefix(input, ts) {
        assert(input.subrange(0, 2)[0] == input[0]);
        assert(input.subrange(0, 2)[1] == input[1]);
    }
}

/// The commands, addresses and hooks of a configuration have their variables expanded,
/// each from its own value.
pub proof fn law_expanded_settings(c: ServiceConfigView, env: Seq<(String, String)>)
    ensures
        ({
            let e = expanded_config(c, env);
            &&& e.tracker.mcp_command == expanded(c.tracker.mcp_command, env)
            &&& e.tracker.database_id == expanded(c.tracker.database_id, env)
            &&& match c.tracker.mcp_url {
                Some(u) => e.tracker.mcp_url == Some(expanded(u, env)),
                None => e.tracker.mcp_url is None,
            }
            &&& e.workspace.root == expanded(c.workspace.root, env)
            &&& e.codex.command == expanded(c.codex.command, env)
            &&& match c.hooks.after_create {
                Some(h) => e.hooks.after_create == Some(expanded(h, env)),
                None => e.hooks.after_create is None,
            }
            &&& match c.hooks.before_run {
                Some(h) => e.hooks.before_run == Some(expanded(h, env)),
                None => e.hooks.before_run is None,
            }
            &&& match c.hooks.after_run {
                Some(h) => e.hooks.after_run == Some(expanded(h, env)),
                None => e.hooks.after_run is None,
            }
            &&& match c.hooks.before_remove {
                Some(h) => e.hooks.before_remove == Some(expanded(h, env)),
                None => e.hooks.before_remove is None,
            }
            &&& e.sentry.org == expanded(c.sentry.org, env)
            &&& e.sentry.project == expanded(c.sentry.project, env)
            &&& e.sentry.mcp_url == expanded(c.sentry.mcp_url, env)
            &&& e.sentry.query == expanded(c.sentry.query, env)
        }),
{
}

/// All other settings stay as they are.
pub proof fn law_other_settings_kept(c: ServiceConfigView, env: Seq<(String, String)>)
    ensures
        ({
            let e = expanded_config(c, env);
            &&& e.prompt_template == c.prompt_template
            &&& e.polling == c.polling
            &&& e.agent == c.agent
            &&& e.server == c.server
            &&& e.preflight == c.preflight
            &&& e.review == c.review
            &&& e.pr_review == c.pr_review
            &&& e.pr_creation == c.pr_creation
            &&& e.tracker.kind == c.tracker.kind
            &&& e.tracker.active_states == c.tracker.active_states
            &&& e.tracker.terminal_states == c.tracker.terminal_states
            &&& e.tracker.property_id == c.tracker.property_id
            &&& e.tracker.property_title == c.tracker.property_title
            &&& e.tracker.property_status == c.tracker.property_status
            &&& e.tracker.property_priority == c.tracker.property_priority
            &&& e.tracker.property_description == c.tracker.property_description
            &&& e.tracker.property_assignee == c.tracker.property_assignee
            &&& e.tracker.assignee_user_id == c.tracker.assignee_user_id
            &&& e.tracker.skip_if_set == c.tracker.skip_if_set
            &&& e.tracker.id_prefix == c.tracker.id_prefix
            &&& e.workspace.agent_subdirectory == c.workspace.agent_subdirectory
            &&& e.workspace.max_age_days == c.workspace.max_age_days
            &&& e.workspace.default_branch == c.workspace.default_branch
            &&& e.codex.turn_timeout_ms == c.codex.turn_timeout_ms
            &&& e.codex.stall_timeout_ms == c.codex.stall_timeout_ms
            &&& e.hooks.timeout_ms == c.hooks.timeout_ms
            &&& e.sentry.enabled == c.sentry.enabled
            &&& e.sentry.min_events == c.sentry.min_events
            &&& e.sentry.id_prefix == c.sentry.id_prefix
        }),
{
}

/// Each MCP server keeps its name and kind and has the variables of its URL, command,
/// arguments and environment values expanded; the names in its environment stay.
pub proof fn law_servers_expanded(c: ServiceConfigView, env: Seq<(String, String)>, i: int)
    requires
        0 <= i < c.mcp_servers.len(),
    ensures
        ({
            let s = c.mcp_servers[i].1;
            let all = expanded_config(c, env).mcp_servers;
            let e = all[i].1;
            &&& all.len() == c.mcp_servers.len()
            &&& all[i].0 == c.mcp_servers[i].0
            &&& e.server_type == s.server_type
            &&& match s.url {
                Some(u) => e.url == Some(expanded(u, env)),
                None => e.url is None,
            }
            &&& match s.command {
                Some(u) => e.command == Some(expanded(u, env)),
                None => e.command is None,
            }
            &&& match s.args {
                Some(a) => e.args is Some && e.args->0.len() == a.len() && forall|k: int|
                    0 <= k < a.len() ==> #[trigger] e.args->0[k] == expanded(a[k], env),
                None => e.args is None,
            }
            &&& match s.env {
                Some(m) => e.env is Some && e.env->0.len() == m.len() && forall|k: int|
                    0 <= k < m.len() ==> #[trigger] e.env->0[k] == (m[k].0, expanded(m[k].1, env)),
                None => e.env is None,
            }
        }),
{
}

} // verus!
