//! Agents: how they are started, what they are given, and what they report.
pub mod process;
pub mod protocol;
pub mod tools;
pub mod worker;

use vstd::prelude::*;
use vstd::string::*;
use crate::collections::StringMap;
use crate::config::schema::{McpServerConfig, McpServerConfigView, ServiceConfig};
use crate::error::{Error, Result};
use crate::json::{json_parsed, json_pretty, parse, to_pretty, Json, JsonView};
use crate::text::{decimal, decimal_string, str_eq};

verus! {

/// A kind of MCP server that is reached by URL.
pub open spec fn is_remote(kind: Seq<char>) -> bool {
    kind == "http"@ || kind == "sse"@ || kind == "url"@ || kind == "streamable-http"@
}

fn remote(kind: &str) -> (r: bool)
    ensures
        r == is_remote(kind@),
{
    str_eq(kind, "http") || str_eq(kind, "sse") || str_eq(kind, "url") || str_eq(
        kind,
        "streamable-http",
    )
}

/// The entry of a server that is reached by URL: a program that relays to it.
pub open spec fn relay_entry(url: Seq<char>) -> JsonView {
    JsonView::Object(
        seq![
            ("command"@, JsonView::Str("npx"@)),
            (
                "args"@,
                JsonView::Array(
                    seq![JsonView::Str("-y"@), JsonView::Str("mcp-remote"@), JsonView::Str(url)],
                ),
            ),
        ],
    )
}

fn relay(url: &str) -> (r: Json)
    ensures
        r.deep_view() == relay_entry(url@),
{
    let mut args: Vec<Json> = Vec::new();
    args.push(Json::string("-y"));
    args.push(Json::string("mcp-remote"));
    args.push(Json::string(url));
    let list = Json::Array(args);
    assert(list.deep_view()->Array_0 =~= relay_entry(url@)->Object_0[1].1->Array_0);
    let mut entries: Vec<(String, Json)> = Vec::new();
    entries.push(("command".to_owned(), Json::string("npx")));
    entries.push(("args".to_owned(), list));
    let r = Json::Object(entries);
    assert(r.deep_view()->Object_0 =~= relay_entry(url@)->Object_0);
    r
}

/// The entry of a project's MCP server as an agent can use it: as it is, but for
/// servers that are reached by URL, which are relayed to; `None` for one of
/// those without a URL.
pub open spec fn normalized_entry(entry: JsonView) -> Option<JsonView> {
    let kind = match entry.str_at("type"@) {
        Some(t) => t,
        None => "stdio"@,
    };
    if is_remote(kind) {
        match entry.str_at("url"@) {
            Some(url) => if url.len() == 0 {
                None
            } else {
                Some(relay_entry(url))
            },
            None => None,
        }
    } else {
        Some(entry)
    }
}

/// Convert a single MCP server JSON value to a stdio-compatible format.
/// HTTP/SSE/URL servers get wrapped with `npx mcp-remote <url>`.
pub fn normalize_mcp_entry(entry: &Json) -> (r: Option<Json>)
    ensures
        r.deep_view() == normalized_entry(entry.deep_view()),
{
    let kind = entry.str_or("type", "stdio");
    if remote(kind) {
        match entry.str_at("url") {
            Some(url) => if url.is_empty() {
                None
            } else {
                Some(relay(url))
            },
            None => None,
        }
    } else {
        Some(entry.copy())
    }
}

/// The strings of a JSON array.
pub open spec fn string_array(items: Seq<Seq<char>>) -> JsonView {
    JsonView::Array(items.map_values(|s: Seq<char>| JsonView::Str(s)))
}

/// An object whose values are strings.
pub open spec fn string_object(m: Seq<(Seq<char>, Seq<char>)>) -> JsonView {
    JsonView::Object(m.map_values(|e: (Seq<char>, Seq<char>)| (e.0, JsonView::Str(e.1))))
}

/// A configured server as JSON: its kind, and what else is set.
pub open spec fn server_json(s: McpServerConfigView) -> JsonView {
    let a = seq![("type"@, JsonView::Str(s.server_type))];
    let b = match s.url {
        Some(url) => a.push(("url"@, JsonView::Str(url))),
        None => a,
    };
    let c = match s.command {
        Some(command) => b.push(("command"@, JsonView::Str(command))),
        None => b,
    };
    let d = match s.args {
        Some(args) => c.push(("args"@, string_array(args))),
        None => c,
    };
    JsonView::Object(
        match s.env {
            Some(env) => d.push(("env"@, string_object(env))),
            None => d,
        },
    )
}

/// The entry of a configured server: relayed to where it is reached by URL;
/// `None` for one of those without a URL.
pub open spec fn server_entry(s: McpServerConfigView) -> Option<JsonView> {
    if is_remote(s.server_type) {
        match s.url {
            Some(url) => if url.len() == 0 {
                None
            } else {
                Some(relay_entry(url))
            },
            None => None,
        }
    } else {
        Some(server_json(s))
    }
}

fn config_json(s: &McpServerConfig) -> (r: Json)
    ensures
        r.deep_view() == server_json(s.deep_view()),
{
    let mut entries: Vec<(String, Json)> = Vec::new();
    entries.push(("type".to_owned(), Json::text(s.server_type.clone())));
    if let Some(url) = &s.url {
        entries.push(("url".to_owned(), Json::text(url.clone())));
    }
    if let Some(command) = &s.command {
        entries.push(("command".to_owned(), Json::text(command.clone())));
    }
    if let Some(args) = &s.args {
        let mut items: Vec<Json> = Vec::new();
        let mut i: usize = 0;
        while i < args.len()
            invariant
                i <= args@.len(),
                items@.len() == i,
                forall|k: int|
                    0 <= k < i ==> (#[trigger] items@[k]).deep_view() == JsonView::Str(args@[k]@),
            decreases args@.len() - i,
        {
            items.push(Json::text(args[i].clone()));
            i += 1;
        }
        let list = Json::Array(items);
        assert(list.deep_view()->Array_0 =~= string_array(args.deep_view())->Array_0);
        entries.push(("args".to_owned(), list));
    }
    if let Some(env) = &s.env {
        let mut items: Vec<(String, Json)> = Vec::new();
        let mut i: usize = 0;
        while i < env.entries.len()
            invariant
                i <= env@.len(),
                items@.len() == i,
                forall|k: int|
                    0 <= k < i ==> (#[trigger] items@[k]).0@ == env@[k].0@ && items@[k].1.deep_view()
                        == JsonView::Str(env@[k].1@),
            decreases env@.len() - i,
        {
            let e = &env.entries[i];
            items.push((e.0.clone(), Json::text(e.1.clone())));
            i += 1;
        }
        let object = Json::Object(items);
        assert(object.deep_view()->Object_0 =~= string_object(env.deep_view())->Object_0);
        entries.push(("env".to_owned(), object));
    }
    let r = Json::Object(entries);
    assert(r.deep_view()->Object_0 =~= server_json(s.deep_view())->Object_0);
    r
}

fn configured_entry(s: &McpServerConfig) -> (r: Option<Json>)
    ensures
        r.deep_view() == server_entry(s.deep_view()),
{
    if remote(s.server_type.as_str()) {
        match &s.url {
            Some(url) => if url.as_str().is_empty() {
                None
            } else {
                Some(relay(url.as_str()))
            },
            None => None,
        }
    } else {
        Some(config_json(s))
    }
}

/// The last entry of a project's servers under a name that an agent can use.
pub open spec fn project_entry(project: Seq<(Seq<char>, JsonView)>, name: Seq<char>) -> Option<JsonView>
    decreases project.len(),
{
    if project.len() == 0 {
        None
    } else if project.last().0 == name && normalized_entry(project.last().1) is Some {
        normalized_entry(project.last().1)
    } else {
        project_entry(project.drop_last(), name)
    }
}

/// The last configured server under a name that an agent can use.
pub open spec fn workflow_entry(
    servers: Seq<(Seq<char>, McpServerConfigView)>,
    name: Seq<char>,
) -> Option<JsonView>
    decreases servers.len(),
{
    if servers.len() == 0 {
        None
    } else if servers.last().0 == name && server_entry(servers.last().1) is Some {
        server_entry(servers.last().1)
    } else {
        workflow_entry(servers.drop_last(), name)
    }
}

/// The server that an agent finds under a name: the workflow's before the
/// project's.
pub open spec fn merged_entry(
    project: Seq<(Seq<char>, JsonView)>,
    servers: Seq<(Seq<char>, McpServerConfigView)>,
    name: Seq<char>,
) -> Option<JsonView> {
    match workflow_entry(servers, name) {
        Some(e) => Some(e),
        None => project_entry(project, name),
    }
}

/// The servers that an agent finds: the project's, and over them the workflow's.
pub fn merge_servers(
    project: &Vec<(String, Json)>,
    servers: &StringMap<McpServerConfig>,
) -> (r: StringMap<Json>)
    ensures
        r.wf(),
        forall|name: Seq<char>| #[trigger]
            r.at(name).deep_view() == merged_entry(
                project.deep_view(),
                servers.deep_view(),
                name,
            ),
{
    let ghost ps = project.deep_view();
    let ghost ss = servers.deep_view();
    let mut out: StringMap<Json> = StringMap::new();
    let mut i: usize = 0;
    while i < project.len()
        invariant
            i <= project@.len(),
            ps == project.deep_view(),
            out.wf(),
            forall|n: Seq<char>| #[trigger]
                out.at(n).deep_view() == project_entry(ps.take(i as int), n),
        decreases project@.len() - i,
    {
        let e = &project[i];
        let ghost o0 = out;
        assert(ps[i as int] == (e.0@, e.1.deep_view()));
        assert(ps.take(i + 1).drop_last() =~= ps.take(i as int));
        assert(ps.take(i + 1).last() == ps[i as int]);
        if let Some(entry) = normalize_mcp_entry(&e.1) {
            out.insert(e.0.clone(), entry);
        }
        proof {
            assert forall|n: Seq<char>| #[trigger]
                out.at(n).deep_view() == project_entry(ps.take(i + 1), n) by {
                assert(o0.at(n).deep_view() == project_entry(ps.take(i as int), n));
            }
        }
        i += 1;
    }
    assert(ps.take(i as int) =~= ps);
    i = 0;
    while i < servers.entries.len()
        invariant
            i <= servers@.len(),
            ss == servers.deep_view(),
            out.wf(),
            forall|n: Seq<char>| #[trigger]
                out.at(n).deep_view() == merged_entry(ps, ss.take(i as int), n),
        decreases servers@.len() - i,
    {
        let e = &servers.entries[i];
        let ghost o0 = out;
        assert(ss[i as int] == (e.0@, e.1.deep_view()));
        assert(ss.take(i + 1).drop_last() =~= ss.take(i as int));
        assert(ss.take(i + 1).last() == ss[i as int]);
        if let Some(entry) = configured_entry(&e.1) {
            out.insert(e.0.clone(), entry);
        }
        proof {
            assert forall|n: Seq<char>| #[trigger]
                out.at(n).deep_view() == merged_entry(ps, ss.take(i + 1), n) by {
                assert(o0.at(n).deep_view() == merged_entry(ps, ss.take(i as int), n));
            }
        }
        i += 1;
    }
    assert(ss.take(i as int) =~= ss);
    out
}

/// The servers under `mcpServers` of a project's `.mcp.json`.
pub open spec fn project_servers_of(text: Seq<char>) -> Option<Seq<(Seq<char>, JsonView)>> {
    match json_parsed(text) {
        Ok(data) => match data.get("mcpServers"@) {
            Some(servers) => servers.as_object(),
            None => None,
        },
        Err(_) => None,
    }
}

/// The servers that a parsed `.mcp.json` lists.
pub fn listed_servers(data: &Json) -> (r: Option<Vec<(String, Json)>>)
    ensures
        r.deep_view() == match data.deep_view().get("mcpServers"@) {
            Some(servers) => servers.as_object(),
            None => None,
        },
{
    match data.get("mcpServers") {
        Some(servers) => match servers.as_object() {
            Some(es) => {
                let copy = servers.copy();
                match copy {
                    Json::Object(list) => {
                        assert(copy.deep_view()->Object_0 =~= list.deep_view());
                        Some(list)
                    },
                    _ => None,
                }
            },
            None => None,
        },
        None => None,
    }
}

/// The servers that the text of a project's `.mcp.json` lists.
pub fn project_servers(text: &str) -> (r: Option<Vec<(String, Json)>>)
    ensures
        r.deep_view() == project_servers_of(text@),
{
    match parse(text) {
        Ok(data) => listed_servers(&data),
        Err(_) => None,
    }
}

/// An MCP config as an agent reads it: the servers under `mcpServers`.
pub fn mcp_config(servers: StringMap<Json>) -> (r: Json)
    ensures
        r.deep_view() == JsonView::Object(
            seq![("mcpServers"@, JsonView::Object(servers.deep_view()))],
        ),
{
    let ghost view = servers.deep_view();
    let inner = Json::Object(servers.entries);
    assert(inner.deep_view()->Object_0 =~= view);
    let mut entries: Vec<(String, Json)> = Vec::new();
    entries.push(("mcpServers".to_owned(), inner));
    let r = Json::Object(entries);
    assert(r.deep_view()->Object_0 =~= seq![("mcpServers"@, JsonView::Object(view))]);
    r
}

/// The text of an MCP config file: the project's servers and over them the
/// workflow's.
pub fn mcp_config_text(config: &Json) -> (r: Result<String>)
    ensures
        match (r, json_pretty(config.deep_view())) {
            (Ok(s), Ok(t)) => s@ == t,
            (Err(e), Err(m)) => e is Agent && e.detail() == m,
            _ => false,
        },
{
    match to_pretty(config) {
        Ok(s) => Ok(s),
        Err(m) => Err(Error::Agent(m)),
    }
}

/// Write an MCP config suitable for `--strict-mcp-config --mcp-config <path>`.
///
/// Merges workflow-level `mcp_servers` with the workspace's `.mcp.json` (if
/// present), converting any HTTP/SSE/URL-type servers to stdio via
/// `npx mcp-remote`. This is necessary because `--mcp-config` together with
/// `--strict-mcp-config` replaces all project-level configs, and the
/// `--mcp-config` schema rejects `type: "http"` entries.
pub fn write_mcp_config(
    servers: &StringMap<McpServerConfig>,
    project: &Option<Vec<(String, Json)>>,
) -> (r: Result<String>)
    ensures
        exists|merged: StringMap<Json>| {
            &&& #[trigger] merged.wf()
            &&& forall|name: Seq<char>| #[trigger]
                merged.at(name).deep_view() == merged_entry(
                    match *project {
                        Some(p) => p.deep_view(),
                        None => seq![],
                    },
                    servers.deep_view(),
                    name,
                )
            &&& match (
                r,
                json_pretty(
                    JsonView::Object(seq![("mcpServers"@, JsonView::Object(merged.deep_view()))]),
                ),
            ) {
                (Ok(s), Ok(t)) => s@ == t,
                (Err(e), Err(m)) => e is Agent && e.detail() == m,
                _ => false,
            }
        },
{
    let merged = match project {
        Some(p) => merge_servers(p, servers),
        None => {
            let none: Vec<(String, Json)> = Vec::new();
            assert(none.deep_view() =~= Seq::<(Seq<char>, JsonView)>::empty());
            merge_servers(&none, servers)
        },
    };
    let ghost seen = merged;
    let config = mcp_config(merged);
    let r = mcp_config_text(&config);
    assert(seen.wf());
    r
}

/// The name of a temporary MCP config file.
pub fn mcp_file_name(issue_id: &str, process: u64, sequence: u64) -> (r: String)
    ensures
        r@ == "symposium-mcp-"@ + issue_id@ + "-"@ + decimal(process as nat) + "-"@ + decimal(
            sequence as nat,
        ) + ".json"@,
{
    let p = decimal_string(process);
    let q = decimal_string(sequence);
    let mut s = "symposium-mcp-".to_owned();
    s.append(issue_id);
    s.append("-");
    s.append(p.as_str());
    s.append("-");
    s.append(q.as_str());
    s.append(".json");
    s
}

/// Starts agents as a configuration says.
#[derive(Debug)]
pub struct AgentRunner {
    pub config: ServiceConfig,
}

impl AgentRunner {
    /// A runner for the configuration.
    pub fn new(config: ServiceConfig) -> (r: Self)
        ensures
            r.config == config,
    {
        AgentRunner { config }
    }

    /// Whether agents need an MCP config file: where the workflow defines
    /// servers, they and the project's replace the project's config.
    pub fn needs_mcp_config(&self) -> (r: bool)
        ensures
            r == (self.config.mcp_servers@.len() > 0),
    {
        self.config.mcp_servers.len() > 0
    }

    /// The command that starts an agent, which reads its prompt from stdin and
    /// reports as a stream of JSON lines.
    pub fn session_command(&self, mcp_path: Option<&str>) -> (r: String)
        ensures
            r@ == self.config.codex.command@
                + " -p --output-format stream-json --verbose --no-session-persistence --dangerously-skip-permissions"@
                + match mcp_path {
                Some(path) => " --strict-mcp-config --mcp-config "@ + path@,
                None => Seq::<char>::empty(),
            },
    {
        let mut s = self.config.codex.command.clone();
        s.append(" -p --output-format stream-json --verbose --no-session-persistence --dangerously-skip-permissions");
        if let Some(path) = mcp_path {
            let mut more = " --strict-mcp-config --mcp-config ".to_owned();
            more.append(path);
            s.append(more.as_str());
        } else {
            assert(s@ + Seq::<char>::empty() =~= s@);
        }
        s
    }
}

/// A workflow's server replaces the project's server of the same name.
pub proof fn law_workflow_server_wins(
    project: Seq<(Seq<char>, JsonView)>,
    servers: Seq<(Seq<char>, McpServerConfigView)>,
    name: Seq<char>,
)
    requires
        workflow_entry(servers, name) is Some,
    ensures
        merged_entry(project, servers, name) == workflow_entry(servers, name),
{
}

/// No server that an agent finds is reached by URL other than through a relay.
pub proof fn law_no_remote_entries(
    project: Seq<(Seq<char>, JsonView)>,
    servers: Seq<(Seq<char>, McpServerConfigView)>,
    name: Seq<char>,
)
    ensures
        match merged_entry(project, servers, name) {
            Some(e) => (exists|url: Seq<char>| e == #[trigger] relay_entry(url)) || match e.str_at(
                "type"@,
            ) {
                Some(t) => !is_remote(t),
                None => true,
            },
            None => true,
        },
{
    lemma_project_not_remote(project, name);
    lemma_workflow_not_remote(servers, name);
}

/// The entry is relayed to, or of a kind that is not reached by URL.
pub open spec fn is_usable(e: JsonView) -> bool {
    ||| exists|url: Seq<char>| e == #[trigger] relay_entry(url)
    ||| match e.str_at("type"@) {
        Some(t) => !is_remote(t),
        None => true,
    }
}

proof fn lemma_project_not_remote(project: Seq<(Seq<char>, JsonView)>, name: Seq<char>)
    ensures
        project_entry(project, name) is Some ==> is_usable(project_entry(project, name)->0),
    decreases project.len(),
{
    if project.len() > 0 {
        lemma_project_not_remote(project.drop_last(), name);
        let e = project.last().1;
        if normalized_entry(e) is Some {
            assert(is_usable(normalized_entry(e)->0)) by {
                match e.str_at("url"@) {
                    Some(url) => {
                        assert(relay_entry(url) == relay_entry(url));
                    },
                    None => {},
                }
            }
        }
    }
}

proof fn lemma_workflow_not_remote(servers: Seq<(Seq<char>, McpServerConfigView)>, name: Seq<char>)
    ensures
        workflow_entry(servers, name) is Some ==> is_usable(workflow_entry(servers, name)->0),
    decreases servers.len(),
{
    if servers.len() > 0 {
        lemma_workflow_not_remote(servers.drop_last(), name);
        let s = servers.last().1;
        if server_entry(s) is Some {
            assert(is_usable(server_entry(s)->0)) by {
                if is_remote(s.server_type) {
                    assert(server_entry(s)->0 == relay_entry(s.url->0));
                } else {
                    let es = server_json(s)->Object_0;
                    assert(es[0] == ("type"@, JsonView::Str(s.server_type)));
                    assert(server_json(s).str_at("type"@) == Some(s.server_type));
                }
            }
        }
    }
}

/// The servers that are reached by URL are those of four kinds, and no others.
pub proof fn law_remote_kinds(kind: Seq<char>)
    ensures
        is_remote("http"@),
        is_remote("sse"@),
        is_remote("url"@),
        is_remote("streamable-http"@),
        kind != "http"@ && kind != "sse"@ && kind != "url"@ && kind != "streamable-http"@
            ==> !is_remote(kind),
{
}

/// A relay is a program that is given the URL as its last argument.
pub proof fn law_relay_is_given_the_url(url: Seq<char>)
    ensures
        relay_entry(url).get("command"@) == Some(JsonView::Str("npx"@)),
        relay_entry(url).get("args"@) == Some(
            JsonView::Array(
                seq![JsonView::Str("-y"@), JsonView::Str("mcp-remote"@), JsonView::Str(url)],
            ),
        ),
        relay_entry(url).get("type"@) is None,
{
    reveal_strlit("command");
    reveal_strlit("args");
    reveal_strlit("type");
    assert("command"@.len() == 7 && "args"@.len() == 4 && "type"@.len() == 4);
    assert("args"@[0] == 'a' && "type"@[0] == 't');
    reveal_with_fuel(crate::json::entry_from, 3);
}

/// An entry of a server that is no remote one, or that names no kind, stays as it is;
/// a remote one is relayed to at its URL, and dropped where it has none.
pub proof fn law_entries_made_usable(entry: JsonView, kind: Seq<char>, url: Seq<char>)
    ensures
        entry.get("type"@) is None ==> normalized_entry(entry) == Some(entry),
        entry.get("type"@) == Some(JsonView::Str(kind)) && !is_remote(kind) ==> normalized_entry(entry)
            == Some(entry),
        entry.get("type"@) == Some(JsonView::Str(kind)) && is_remote(kind) && entry.get("url"@) == Some(
            JsonView::Str(url),
        ) && url.len() > 0 ==> normalized_entry(entry) == Some(relay_entry(url)),
        entry.get("type"@) == Some(JsonView::Str(kind)) && is_remote(kind) && entry.get("url"@) == Some(
            JsonView::Str(url),
        ) && url.len() == 0 ==> normalized_entry(entry) is None,
        entry.get("type"@) == Some(JsonView::Str(kind)) && is_remote(kind) && entry.get("url"@) is None
            ==> normalized_entry(entry) is None,
{
    reveal_strlit("stdio");
    reveal_strlit("http");
    reveal_strlit("sse");
    reveal_strlit("url");
    reveal_strlit("streamable-http");
    assert("stdio"@.len() == 5 && "http"@.len() == 4 && "sse"@.len() == 3 && "url"@.len() == 3
        && "streamable-http"@.len() == 15);
}

/// A configured server that is reached by URL is relayed to, and dropped where it has
/// no URL; any other stands as it is configured.
pub proof fn law_configured_servers_made_usable(s: McpServerConfigView)
    ensures
        !is_remote(s.server_type) ==> server_entry(s) == Some(server_json(s)),
        is_remote(s.server_type) && s.url is Some && s.url->0.len() > 0 ==> server_entry(s) == Some(
            relay_entry(s.url->0),
        ),
        is_remote(s.server_type) && (s.url is None || s.url->0.len() == 0) ==> server_entry(s) is None,
{
}

/// A server as JSON has its kind, and its URL, command, arguments and environment
/// exactly where they are configured.
pub proof fn law_server_json_holds_what_is_set(s: McpServerConfigView)
    ensures
        ({
            let j = server_json(s);
            &&& j.get("type"@) == Some(JsonView::Str(s.server_type))
            &&& match s.url {
                Some(u) => j.get("url"@) == Some(JsonView::Str(u)),
                None => j.get("url"@) is None,
            }
            &&& match s.command {
                Some(c) => j.get("command"@) == Some(JsonView::Str(c)),
                None => j.get("command"@) is None,
            }
            &&& match s.args {
                Some(a) => j.get("args"@) == Some(string_array(a)),
                None => j.get("args"@) is None,
            }
            &&& match s.env {
                Some(e) => j.get("env"@) == Some(string_object(e)),
                None => j.get("env"@) is None,
            }
        }),
{
    reveal_strlit("type");
    reveal_strlit("url");
    reveal_strlit("command");
    reveal_strlit("args");
    reveal_strlit("env");
    assert("type"@.len() == 4 && "url"@.len() == 3 && "command"@.len() == 7 && "args"@.len() == 4
        && "env"@.len() == 3);
    assert("type"@[0] == 't' && "args"@[0] == 'a' && "url"@[0] == 'u' && "env"@[0] == 'e');
    reveal_with_fuel(crate::json::entry_from, 6);
}

/// Arguments and environment are written as they are, item by item.
pub proof fn law_strings_written_as_they_are(
    items: Seq<Seq<char>>,
    m: Seq<(Seq<char>, Seq<char>)>,
)
    ensures
        string_array(items)->Array_0.len() == items.len(),
        forall|i: int|
            0 <= i < items.len() ==> #[trigger] string_array(items)->Array_0[i] == JsonView::Str(
                items[i],
            ),
        string_object(m)->Object_0.len() == m.len(),
        forall|i: int|
            0 <= i < m.len() ==> #[trigger] string_object(m)->Object_0[i] == (
                m[i].0,
                JsonView::Str(m[i].1),
            ),
{
}

/// Of a project's servers of one name, the last that can be used counts; servers of
/// other names do not matter to it.
pub proof fn law_last_project_server_counts(
    project: Seq<(Seq<char>, JsonView)>,
    name: Seq<char>,
    other: Seq<char>,
    entry: JsonView,
)
    requires
        other != name,
    ensures
        project_entry(seq![], name) is None,
        project_entry(project.push((name, entry)), name) == (match normalized_entry(entry) {
            Some(e) => Some(e),
            None => project_entry(project, name),
        }),
        project_entry(project.push((other, entry)), name) == project_entry(project, name),
{
    assert(project.push((name, entry)).drop_last() =~= project);
    assert(project.push((other, entry)).drop_last() =~= project);
}

/// Of a workflow's servers of one name, the last that can be used counts; servers of
/// other names do not matter to it.
pub proof fn law_last_workflow_server_counts(
    servers: Seq<(Seq<char>, McpServerConfigView)>,
    name: Seq<char>,
    other: Seq<char>,
    server: McpServerConfigView,
)
    requires
        other != name,
    ensures
        workflow_entry(seq![], name) is None,
        workflow_entry(servers.push((name, server)), name) == (match server_entry(server) {
            Some(e) => Some(e),
            None => workflow_entry(servers, name),
        }),
        workflow_entry(servers.push((other, server)), name) == workflow_entry(servers, name),
{
    assert(servers.push((name, server)).drop_last() =~= servers);
    assert(servers.push((other, server)).drop_last() =~= servers);
}

/// Where the workflow has no server of a name, the project's server is found.
pub proof fn law_project_server_kept(
    project: Seq<(Seq<char>, JsonView)>,
    servers: Seq<(Seq<char>, McpServerConfigView)>,
    name: Seq<char>,
)
    requires
        forall|i: int| 0 <= i < servers.len() ==> (#[trigger] servers[i]).0 != name,
    ensures
        merged_entry(project, servers, name) == project_entry(project, name),
    decreases servers.len(),
{
    if servers.len() > 0 {
        let t = servers.drop_last();
        assert forall|i: int| 0 <= i < t.len() implies (#[trigger] t[i]).0 != name by {
            assert(t[i] == servers[i]);
        }
        law_project_server_kept(project, t, name);
        assert(servers.last() == servers[servers.len() - 1]);
    }
}

/// The servers of a project are what its file lists under "mcpServers"; what is no
/// JSON, or lists none, has none.
pub proof fn law_project_servers_listed(
    text: Seq<char>,
    data: JsonView,
    entries: Seq<(Seq<char>, JsonView)>,
)
    ensures
        json_parsed(text) is Err ==> project_servers_of(text) is None,
        json_parsed(text) == Ok::<JsonView, Seq<char>>(data) && data.get("mcpServers"@) is None
            ==> project_servers_of(text) is None,
        json_parsed(text) == Ok::<JsonView, Seq<char>>(data) && data.get("mcpServers"@) == Some(
            JsonView::Object(entries),
        ) ==> project_servers_of(text) == Some(entries),
{
}

} // verus!
