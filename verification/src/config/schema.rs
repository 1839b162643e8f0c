//! The configuration of a workflow.
use vstd::prelude::*;
use vstd::string::*;
use crate::collections::StringMap;
use crate::text::str_eq;
use crate::time::Duration;

verus! {

/// Everything a WORKFLOW file configures.
#[derive(Debug)]
pub struct ServiceConfig {
    pub tracker: TrackerConfig,
    pub polling: PollingConfig,
    pub workspace: WorkspaceConfig,
    pub hooks: HooksConfig,
    pub agent: AgentConfig,
    pub codex: CodexConfig,
    pub server: ServerConfig,
    pub preflight: PreflightConfig,
    pub review: ReviewConfig,
    pub pr_review: PrReviewConfig,
    pub pr_creation: PrCreationConfig,
    pub mcp_servers: StringMap<McpServerConfig>,
    pub sentry: SentryConfig,
    pub prompt_template: String,
}

/// What a `ServiceConfig` holds.
#[verifier::ext_equal]
pub struct ServiceConfigView {
    pub tracker: TrackerConfigView,
    pub polling: PollingConfigView,
    pub workspace: WorkspaceConfigView,
    pub hooks: HooksConfigView,
    pub agent: AgentConfigView,
    pub codex: CodexConfigView,
    pub server: ServerConfigView,
    pub preflight: PreflightConfigView,
    pub review: ReviewConfigView,
    pub pr_review: PrReviewConfigView,
    pub pr_creation: PrCreationConfigView,
    pub mcp_servers: Seq<(Seq<char>, McpServerConfigView)>,
    pub sentry: SentryConfigView,
    pub prompt_template: Seq<char>,
}

impl DeepView for ServiceConfig {
    type V = ServiceConfigView;

    open spec fn deep_view(&self) -> ServiceConfigView {
        ServiceConfigView {
            tracker: self.tracker.deep_view(),
            polling: self.polling.deep_view(),
            workspace: self.workspace.deep_view(),
            hooks: self.hooks.deep_view(),
            agent: self.agent.deep_view(),
            codex: self.codex.deep_view(),
            server: self.server.deep_view(),
            preflight: self.preflight.deep_view(),
            review: self.review.deep_view(),
            pr_review: self.pr_review.deep_view(),
            pr_creation: self.pr_creation.deep_view(),
            mcp_servers: self.mcp_servers.deep_view(),
            sentry: self.sentry.deep_view(),
            prompt_template: self.prompt_template@,
        }
    }
}

impl Clone for ServiceConfig {
    fn clone(&self) -> (r: Self)
        ensures
            r.deep_view() == self.deep_view(),
    {
        let r = ServiceConfig {
            tracker: self.tracker.clone(),
            polling: self.polling.clone(),
            workspace: self.workspace.clone(),
            hooks: self.hooks.clone(),
            agent: self.agent.clone(),
            codex: self.codex.clone(),
            server: self.server.clone(),
            preflight: self.preflight.clone(),
            review: self.review.clone(),
            pr_review: self.pr_review.clone(),
            pr_creation: self.pr_creation.clone(),
            mcp_servers: self.mcp_servers.clone(),
            sentry: self.sentry.clone(),
            prompt_template: self.prompt_template.clone(),
        };
        assert(r.mcp_servers.deep_view() =~= self.mcp_servers.deep_view());
        r
    }
}

impl Default for ServiceConfig {
    fn default() -> (r: Self)
        ensures
            r.tracker.is_default(),
            r.polling.interval_ms == 30000,
            r.workspace.root@ == "~/symposium_workspaces"@,
            r.workspace.agent_subdirectory is None,
            r.workspace.max_age_days is None,
            r.workspace.default_branch@ == "main"@,
            r.hooks.is_default(),
            r.agent.max_concurrent_agents == 5,
            r.codex.command@ == ""@,
            r.codex.turn_timeout_ms == 3_600_000,
            r.codex.stall_timeout_ms == 300_000,
            r.server.port == 8080,
            !r.preflight.enabled,
            r.preflight.prompt_template@.len() == 0,
            r.review.enabled,
            r.review.prompt_template@.len() == 0,
            r.review.before_review is None,
            !r.pr_review.enabled,
            r.pr_review.prompt_template@.len() == 0,
            r.pr_review.reviewers is All,
            r.pr_creation.is_default(),
            r.mcp_servers@.len() == 0,
            r.mcp_servers.wf(),
            r.sentry.is_default(),
            r.prompt_template@.len() == 0,
    {
        ServiceConfig {
            tracker: TrackerConfig::default(),
            polling: PollingConfig::default(),
            workspace: WorkspaceConfig::default(),
            hooks: HooksConfig::default(),
            agent: AgentConfig::default(),
            codex: CodexConfig::default(),
            server: ServerConfig::default(),
            preflight: PreflightConfig::default(),
            review: ReviewConfig::default(),
            pr_review: PrReviewConfig::default(),
            pr_creation: PrCreationConfig::default(),
            mcp_servers: StringMap::new(),
            sentry: SentryConfig::default(),
            prompt_template: String::new(),
        }
    }
}

/// Where the Sentry MCP server is, unless configured otherwise.
pub fn default_sentry_mcp_url() -> (r: String)
    ensures
        r@ == "https://mcp.sentry.dev/mcp"@,
{
    "https://mcp.sentry.dev/mcp".to_owned()
}

/// How often a Sentry issue must have occurred, unless configured otherwise.
pub fn default_sentry_min_events() -> (r: u64)
    ensures
        r == 5,
{
    5
}

/// What identifiers of Sentry issues start with, unless configured otherwise.
pub fn default_sentry_id_prefix() -> (r: String)
    ensures
        r@ == "sentry:"@,
{
    "sentry:".to_owned()
}

/// The kind of an MCP server, unless configured otherwise.
pub fn default_mcp_type() -> (r: String)
    ensures
        r@ == "stdio"@,
{
    "stdio".to_owned()
}

/// How issues are fetched from Sentry.
#[derive(Debug)]
pub struct SentryConfig {
    pub enabled: bool,
    pub org: String,
    /// The project whose issues are fetched. It is passed to the search as an
    /// argument of its own, and issues whose short id does not start with its
    /// name are dropped.
    pub project: String,
    /// MCP server URL for Sentry (uses OAuth for auth).
    pub mcp_url: String,
    /// Extra Sentry search filters appended after `is:unresolved` (or
    /// `is:resolved`), e.g. `error.unhandled:true`.
    pub query: String,
    /// Issues with fewer events than this are left out.
    pub min_events: u64,
    /// Prefix for Sentry issue identifiers (default: "sentry:").
    pub id_prefix: String,
}

/// What a `SentryConfig` holds.
#[verifier::ext_equal]
pub struct SentryConfigView {
    pub enabled: bool,
    pub org: Seq<char>,
    pub project: Seq<char>,
    pub mcp_url: Seq<char>,
    pub query: Seq<char>,
    pub min_events: u64,
    pub id_prefix: Seq<char>,
}

impl DeepView for SentryConfig {
    type V = SentryConfigView;

    open spec fn deep_view(&self) -> SentryConfigView {
        SentryConfigView {
            enabled: self.enabled,
            org: self.org@,
            project: self.project@,
            mcp_url: self.mcp_url@,
            query: self.query@,
            min_events: self.min_events,
            id_prefix: self.id_prefix@,
        }
    }
}

impl Clone for SentryConfig {
    fn clone(&self) -> (r: Self)
        ensures
            r.deep_view() == self.deep_view(),
    {
        SentryConfig {
            enabled: self.enabled,
            org: self.org.clone(),
            project: self.project.clone(),
            mcp_url: self.mcp_url.clone(),
            query: self.query.clone(),
            min_events: self.min_events,
            id_prefix: self.id_prefix.clone(),
        }
    }
}

impl SentryConfig {
    pub open spec fn is_default(&self) -> bool {
        &&& !self.enabled
        &&& self.org@.len() == 0
        &&& self.project@.len() == 0
        &&& self.mcp_url@ == "https://mcp.sentry.dev/mcp"@
        &&& self.query@.len() == 0
        &&& self.min_events == 5
        &&& self.id_prefix@ == "sentry:"@
    }
}

impl Default for SentryConfig {
    fn default() -> (r: Self)
        ensures
            r.is_default(),
    {
        SentryConfig {
            enabled: false,
            org: String::new(),
            project: String::new(),
            mcp_url: default_sentry_mcp_url(),
            query: String::new(),
            min_events: default_sentry_min_events(),
            id_prefix: default_sentry_id_prefix(),
        }
    }
}

/// An MCP server that agents may use.
#[derive(Debug)]
pub struct McpServerConfig {
    pub server_type: String,
    pub url: Option<String>,
    pub command: Option<String>,
    pub args: Option<Vec<String>>,
    pub env: Option<StringMap<String>>,
}

/// What a `McpServerConfig` holds.
#[verifier::ext_equal]
pub struct McpServerConfigView {
    pub server_type: Seq<char>,
    pub url: Option<Seq<char>>,
    pub command: Option<Seq<char>>,
    pub args: Option<Seq<Seq<char>>>,
    pub env: Option<Seq<(Seq<char>, Seq<char>)>>,
}

impl DeepView for McpServerConfig {
    type V = McpServerConfigView;

    open spec fn deep_view(&self) -> McpServerConfigView {
        McpServerConfigView {
            server_type: self.server_type@,
            url: self.url.deep_view(),
            command: self.command.deep_view(),
            args: self.args.deep_view(),
            env: self.env.deep_view(),
        }
    }
}

impl Clone for McpServerConfig {
    fn clone(&self) -> (r: Self)
        ensures
            r.deep_view() == self.deep_view(),
    {
        let r = McpServerConfig {
            server_type: self.server_type.clone(),
            url: self.url.clone(),
            command: self.command.clone(),
            args: self.args.clone(),
            env: self.env.clone(),
        };
        assert(r.args.deep_view() =~= self.args.deep_view());
        assert(r.env.deep_view() =~= self.env.deep_view());
        r
    }
}

impl Default for McpServerConfig {
    fn default() -> (r: Self)
        ensures
            r.server_type@.len() == 0,
            r.url is None,
            r.command is None,
            r.args is None,
            r.env is None,
    {
        McpServerConfig { server_type: String::new(), url: None, command: None, args: None, env: None }
    }
}

/// How issues are fetched from Notion.
#[derive(Debug)]
pub struct TrackerConfig {
    pub kind: String,
    pub mcp_command: String,
    pub mcp_url: Option<String>,
    pub database_id: String,
    pub active_states: Vec<String>,
    pub terminal_states: Vec<String>,
    pub property_id: String,
    pub property_title: String,
    pub property_status: String,
    pub property_priority: String,
    pub property_description: String,
    pub property_assignee: String,
    /// Filter issues to only those assigned to this user ID.
    pub assignee_user_id: Option<String>,
    /// Skip issues where this property is non-null (e.g. a linked PR relation).
    pub skip_if_set: Option<String>,
    /// Prefix prepended to the raw ID property value (e.g. "BUG-" gives "BUG-316205").
    pub id_prefix: Option<String>,
}

/// What a `TrackerConfig` holds.
#[verifier::ext_equal]
pub struct TrackerConfigView {
    pub kind: Seq<char>,
    pub mcp_command: Seq<char>,
    pub mcp_url: Option<Seq<char>>,
    pub database_id: Seq<char>,
    pub active_states: Seq<Seq<char>>,
    pub terminal_states: Seq<Seq<char>>,
    pub property_id: Seq<char>,
    pub property_title: Seq<char>,
    pub property_status: Seq<char>,
    pub property_priority: Seq<char>,
    pub property_description: Seq<char>,
    pub property_assignee: Seq<char>,
    pub assignee_user_id: Option<Seq<char>>,
    pub skip_if_set: Option<Seq<char>>,
    pub id_prefix: Option<Seq<char>>,
}

impl DeepView for TrackerConfig {
    type V = TrackerConfigView;

    open spec fn deep_view(&self) -> TrackerConfigView {
        TrackerConfigView {
            kind: self.kind@,
            mcp_command: self.mcp_command@,
            mcp_url: self.mcp_url.deep_view(),
            database_id: self.database_id@,
            active_states: self.active_states.deep_view(),
            terminal_states: self.terminal_states.deep_view(),
            property_id: self.property_id@,
            property_title: self.property_title@,
            property_status: self.property_status@,
            property_priority: self.property_priority@,
            property_description: self.property_description@,
            property_assignee: self.property_assignee@,
            assignee_user_id: self.assignee_user_id.deep_view(),
            skip_if_set: self.skip_if_set.deep_view(),
            id_prefix: self.id_prefix.deep_view(),
        }
    }
}

impl Clone for TrackerConfig {
    fn clone(&self) -> (r: Self)
        ensures
            r.deep_view() == self.deep_view(),
    {
        let r = TrackerConfig {
            kind: self.kind.clone(),
            mcp_command: self.mcp_command.clone(),
            mcp_url: self.mcp_url.clone(),
            database_id: self.database_id.clone(),
            active_states: self.active_states.clone(),
            terminal_states: self.terminal_states.clone(),
            property_id: self.property_id.clone(),
            property_title: self.property_title.clone(),
            property_status: self.property_status.clone(),
            property_priority: self.property_priority.clone(),
            property_description: self.property_description.clone(),
            property_assignee: self.property_assignee.clone(),
            assignee_user_id: self.assignee_user_id.clone(),
            skip_if_set: self.skip_if_set.clone(),
            id_prefix: self.id_prefix.clone(),
        };
        assert(r.active_states.deep_view() =~= self.active_states.deep_view());
        assert(r.terminal_states.deep_view() =~= self.terminal_states.deep_view());
        r
    }
}

impl TrackerConfig {
    pub open spec fn is_default(&self) -> bool {
        &&& self.kind@ == "notion"@
        &&& self.mcp_command@ == "npx -y @notionhq/notion-mcp-server"@
        &&& self.mcp_url is None
        &&& self.database_id@.len() == 0
        &&& self.active_states.deep_view() == seq!["Todo"@, "In Progress"@]
        &&& self.terminal_states.deep_view() == seq!["Done"@, "Cancelled"@]
        &&& self.property_id@ == "ID"@
        &&& self.property_title@ == "Name"@
        &&& self.property_status@ == "Status"@
        &&& self.property_priority@ == "Priority"@
        &&& self.property_description@ == "Description"@
        &&& self.property_assignee@ == "Assignee"@
        &&& self.assignee_user_id is None
        &&& self.skip_if_set is None
        &&& self.id_prefix is None
    }
}

impl Default for TrackerConfig {
    fn default() -> (r: Self)
        ensures
            r.is_default(),
    {
        let mut active_states: Vec<String> = Vec::new();
        active_states.push("Todo".to_owned());
        active_states.push("In Progress".to_owned());
        let mut terminal_states: Vec<String> = Vec::new();
        terminal_states.push("Done".to_owned());
        terminal_states.push("Cancelled".to_owned());
        assert(active_states.deep_view() =~= seq!["Todo"@, "In Progress"@]);
        assert(terminal_states.deep_view() =~= seq!["Done"@, "Cancelled"@]);
        TrackerConfig {
            kind: "notion".to_owned(),
            mcp_command: "npx -y @notionhq/notion-mcp-server".to_owned(),
            mcp_url: None,
            database_id: String::new(),
            active_states,
            terminal_states,
            property_id: "ID".to_owned(),
            property_title: "Name".to_owned(),
            property_status: "Status".to_owned(),
            property_priority: "Priority".to_owned(),
            property_description: "Description".to_owned(),
            property_assignee: "Assignee".to_owned(),
            assignee_user_id: None,
            skip_if_set: None,
            id_prefix: None,
        }
    }
}

/// How often the trackers are asked.
#[derive(Debug)]
pub struct PollingConfig {
    pub interval_ms: u64,
}

/// What a `PollingConfig` holds.
#[verifier::ext_equal]
pub struct PollingConfigView {
    pub interval_ms: u64,
}

impl DeepView for PollingConfig {
    type V = PollingConfigView;

    open spec fn deep_view(&self) -> PollingConfigView {
        PollingConfigView {
            interval_ms: self.interval_ms,
        }
    }
}

impl Clone for PollingConfig {
    fn clone(&self) -> (r: Self)
        ensures
            r.deep_view() == self.deep_view(),
    {
        PollingConfig {
            interval_ms: self.interval_ms,
        }
    }
}

impl Default for PollingConfig {
    fn default() -> (r: Self)
        ensures
            r.interval_ms == 30000,
    {
        PollingConfig { interval_ms: 30000 }
    }
}

impl PollingConfig {
    /// The time between two polls.
    pub fn interval(&self) -> (r: Duration)
        ensures
            r.nanos == self.interval_ms * 1_000_000,
    {
        Duration::from_millis(self.interval_ms)
    }
}

/// Where the workspaces are, and how long they are kept.
#[derive(Debug)]
pub struct WorkspaceConfig {
    pub root: String,
    /// Subdirectory within the workspace to use as the agent's working directory.
    pub agent_subdirectory: Option<String>,
    /// Reap workspaces whose top-level mtime is older than this many days.
    /// Running sessions and workspaces with tracked open PRs are always skipped.
    /// `None` disables the reaper.
    pub max_age_days: Option<u64>,
    /// The branch that work starts from where no blocker gives another.
    pub default_branch: String,
}

/// What a `WorkspaceConfig` holds.
#[verifier::ext_equal]
pub struct WorkspaceConfigView {
    pub root: Seq<char>,
    pub agent_subdirectory: Option<Seq<char>>,
    pub max_age_days: Option<u64>,
    pub default_branch: Seq<char>,
}

impl DeepView for WorkspaceConfig {
    type V = WorkspaceConfigView;

    open spec fn deep_view(&self) -> WorkspaceConfigView {
        WorkspaceConfigView {
            root: self.root@,
            agent_subdirectory: self.agent_subdirectory.deep_view(),
            max_age_days: self.max_age_days.deep_view(),
            default_branch: self.default_branch@,
        }
    }
}

impl Clone for WorkspaceConfig {
    fn clone(&self) -> (r: Self)
        ensures
            r.deep_view() == self.deep_view(),
    {
        WorkspaceConfig {
            root: self.root.clone(),
            agent_subdirectory: self.agent_subdirectory.clone(),
            max_age_days: self.max_age_days.clone(),
            default_branch: self.default_branch.clone(),
        }
    }
}

impl Default for WorkspaceConfig {
    fn default() -> (r: Self)
        ensures
            r.root@ == "~/symposium_workspaces"@,
            r.agent_subdirectory is None,
            r.max_age_days is None,
            r.default_branch@ == "main"@,
    {
        WorkspaceConfig {
            root: "~/symposium_workspaces".to_owned(),
            agent_subdirectory: None,
            max_age_days: None,
            default_branch: "main".to_owned(),
        }
    }
}

impl WorkspaceConfig {
    /// The age from which on a workspace is reaped, if any is.
    pub fn max_age(&self) -> (r: Option<Duration>)
        requires
            self.max_age_days is Some ==> self.max_age_days->0 * 86_400 <= u64::MAX,
        ensures
            match r {
                Some(d) => self.max_age_days is Some && d.nanos == self.max_age_days->0 * 86_400
                    * 1_000_000_000,
                None => self.max_age_days is None,
            },
    {
        match self.max_age_days {
            Some(d) => Some(Duration::from_secs(d * 24 * 60 * 60)),
            None => None,
        }
    }
}

/// Shell scripts that run around the work on an issue.
#[derive(Debug)]
pub struct HooksConfig {
    pub after_create: Option<String>,
    pub before_run: Option<String>,
    pub after_run: Option<String>,
    /// Optional shell hook rendered and run from the workspace's parent
    /// directory before the workspace itself is deleted. If the hook fails,
    /// the directory is removed all the same.
    pub before_remove: Option<String>,
    pub timeout_ms: u64,
}

/// What a `HooksConfig` holds.
#[verifier::ext_equal]
pub struct HooksConfigView {
    pub after_create: Option<Seq<char>>,
    pub before_run: Option<Seq<char>>,
    pub after_run: Option<Seq<char>>,
    pub before_remove: Option<Seq<char>>,
    pub timeout_ms: u64,
}

impl DeepView for HooksConfig {
    type V = HooksConfigView;

    open spec fn deep_view(&self) -> HooksConfigView {
        HooksConfigView {
            after_create: self.after_create.deep_view(),
            before_run: self.before_run.deep_view(),
            after_run: self.after_run.deep_view(),
            before_remove: self.before_remove.deep_view(),
            timeout_ms: self.timeout_ms,
        }
    }
}

impl Clone for HooksConfig {
    fn clone(&self) -> (r: Self)
        ensures
            r.deep_view() == self.deep_view(),
    {
        HooksConfig {
            after_create: self.after_create.clone(),
            before_run: self.before_run.clone(),
            after_run: self.after_run.clone(),
            before_remove: self.before_remove.clone(),
            timeout_ms: self.timeout_ms,
        }
    }
}

impl HooksConfig {
    pub open spec fn is_default(&self) -> bool {
        &&& self.after_create is None
        &&& self.before_run is None
        &&& self.after_run is None
        &&& self.before_remove is None
        &&& self.timeout_ms == 300_000
    }

    /// How long a hook may run.
    pub fn timeout(&self) -> (r: Duration)
        ensures
            r.nanos == self.timeout_ms * 1_000_000,
    {
        Duration::from_millis(self.timeout_ms)
    }
}

impl Default for HooksConfig {
    fn default() -> (r: Self)
        ensures
            r.is_default(),
    {
        HooksConfig {
            after_create: None,
            before_run: None,
            after_run: None,
            before_remove: None,
            timeout_ms: 300_000,
        }
    }
}

/// How many agents may run.
#[derive(Debug)]
pub struct AgentConfig {
    pub max_concurrent_agents: usize,
}

/// What a `AgentConfig` holds.
#[verifier::ext_equal]
pub struct AgentConfigView {
    pub max_concurrent_agents: usize,
}

impl DeepView for AgentConfig {
    type V = AgentConfigView;

    open spec fn deep_view(&self) -> AgentConfigView {
        AgentConfigView {
            max_concurrent_agents: self.max_concurrent_agents,
        }
    }
}

impl Clone for AgentConfig {
    fn clone(&self) -> (r: Self)
        ensures
            r.deep_view() == self.deep_view(),
    {
        AgentConfig {
            max_concurrent_agents: self.max_concurrent_agents,
        }
    }
}

impl Default for AgentConfig {
    fn default() -> (r: Self)
        ensures
            r.max_concurrent_agents == 5,
    {
        AgentConfig { max_concurrent_agents: 5 }
    }
}

/// The agent command and its time limits.
#[derive(Debug)]
pub struct CodexConfig {
    /// The command that starts an agent; empty until a workflow file names one.
    pub command: String,
    pub turn_timeout_ms: u64,
    pub stall_timeout_ms: u64,
}

/// What a `CodexConfig` holds.
#[verifier::ext_equal]
pub struct CodexConfigView {
    pub command: Seq<char>,
    pub turn_timeout_ms: u64,
    pub stall_timeout_ms: u64,
}

impl DeepView for CodexConfig {
    type V = CodexConfigView;

    open spec fn deep_view(&self) -> CodexConfigView {
        CodexConfigView {
            command: self.command@,
            turn_timeout_ms: self.turn_timeout_ms,
            stall_timeout_ms: self.stall_timeout_ms,
        }
    }
}

impl Clone for CodexConfig {
    fn clone(&self) -> (r: Self)
        ensures
            r.deep_view() == self.deep_view(),
    {
        CodexConfig {
            command: self.command.clone(),
            turn_timeout_ms: self.turn_timeout_ms,
            stall_timeout_ms: self.stall_timeout_ms,
        }
    }
}

impl Default for CodexConfig {
    fn default() -> (r: Self)
        ensures
            r.command@ == ""@,
            r.turn_timeout_ms == 3_600_000,
            r.stall_timeout_ms == 300_000,
    {
        CodexConfig {
            command: "".to_owned(),
            turn_timeout_ms: 3_600_000,
            stall_timeout_ms: 300_000,
        }
    }
}

impl CodexConfig {
    /// How long an agent's session may take.
    pub fn turn_timeout(&self) -> (r: Duration)
        ensures
            r.nanos == self.turn_timeout_ms * 1_000_000,
    {
        Duration::from_millis(self.turn_timeout_ms)
    }

    /// How long an agent may be silent before it counts as stalled.
    pub fn stall_timeout(&self) -> (r: Duration)
        ensures
            r.nanos == self.stall_timeout_ms * 1_000_000,
    {
        Duration::from_millis(self.stall_timeout_ms)
    }
}

/// The status server.
#[derive(Debug)]
pub struct ServerConfig {
    pub port: u16,
}

/// What a `ServerConfig` holds.
#[verifier::ext_equal]
pub struct ServerConfigView {
    pub port: u16,
}

impl DeepView for ServerConfig {
    type V = ServerConfigView;

    open spec fn deep_view(&self) -> ServerConfigView {
        ServerConfigView {
            port: self.port,
        }
    }
}

impl Clone for ServerConfig {
    fn clone(&self) -> (r: Self)
        ensures
            r.deep_view() == self.deep_view(),
    {
        ServerConfig {
            port: self.port,
        }
    }
}

impl Default for ServerConfig {
    fn default() -> (r: Self)
        ensures
            r.port == 8080,
    {
        ServerConfig { port: 8080 }
    }
}

/// The verification step before the main agent.
#[derive(Debug)]
pub struct PreflightConfig {
    /// Whether to run a pre-flight verification step before the main agent.
    pub enabled: bool,
    /// Liquid template for the pre-flight agent prompt.
    /// If the agent writes a `PREFLIGHT_SKIP` file, the issue is skipped.
    pub prompt_template: String,
}

/// What a `PreflightConfig` holds.
#[verifier::ext_equal]
pub struct PreflightConfigView {
    pub enabled: bool,
    pub prompt_template: Seq<char>,
}

impl DeepView for PreflightConfig {
    type V = PreflightConfigView;

    open spec fn deep_view(&self) -> PreflightConfigView {
        PreflightConfigView {
            enabled: self.enabled,
            prompt_template: self.prompt_template@,
        }
    }
}

impl Clone for PreflightConfig {
    fn clone(&self) -> (r: Self)
        ensures
            r.deep_view() == self.deep_view(),
    {
        PreflightConfig {
            enabled: self.enabled,
            prompt_template: self.prompt_template.clone(),
        }
    }
}

impl Default for PreflightConfig {
    fn default() -> (r: Self)
        ensures
            !r.enabled,
            r.prompt_template@.len() == 0,
    {
        PreflightConfig { enabled: false, prompt_template: String::new() }
    }
}

/// The review step after the main agent.
#[derive(Debug)]
pub struct ReviewConfig {
    /// Whether to run the review step at all. Defaults to true.
    pub enabled: bool,
    /// Liquid template for the review prompt. If empty, the built-in one is used.
    pub prompt_template: String,
    /// Optional shell hook to run before the review agent starts.
    pub before_review: Option<String>,
}

/// What a `ReviewConfig` holds.
#[verifier::ext_equal]
pub struct ReviewConfigView {
    pub enabled: bool,
    pub prompt_template: Seq<char>,
    pub before_review: Option<Seq<char>>,
}

impl DeepView for ReviewConfig {
    type V = ReviewConfigView;

    open spec fn deep_view(&self) -> ReviewConfigView {
        ReviewConfigView {
            enabled: self.enabled,
            prompt_template: self.prompt_template@,
            before_review: self.before_review.deep_view(),
        }
    }
}

impl Clone for ReviewConfig {
    fn clone(&self) -> (r: Self)
        ensures
            r.deep_view() == self.deep_view(),
    {
        ReviewConfig {
            enabled: self.enabled,
            prompt_template: self.prompt_template.clone(),
            before_review: self.before_review.clone(),
        }
    }
}

impl Default for ReviewConfig {
    fn default() -> (r: Self)
        ensures
            r.enabled,
            r.prompt_template@.len() == 0,
            r.before_review is None,
    {
        ReviewConfig { enabled: true, prompt_template: String::new(), before_review: None }
    }
}

/// Whose feedback should trigger a fix agent.
#[derive(Debug)]
pub enum ReviewerFilter {
    /// React to the feedback of anyone.
    All,
    /// Skip bot accounts (GitHub usernames ending in `[bot]`).
    Humans,
    /// Only react to these specific GitHub usernames.
    Specific(Vec<String>),
}

/// What a `ReviewerFilter` holds.
#[verifier::ext_equal]
pub enum ReviewerFilterView {
    All,
    Humans,
    Specific(Seq<Seq<char>>),
}

impl DeepView for ReviewerFilter {
    type V = ReviewerFilterView;

    open spec fn deep_view(&self) -> ReviewerFilterView {
        match self {
            ReviewerFilter::All => ReviewerFilterView::All,
            ReviewerFilter::Humans => ReviewerFilterView::Humans,
            ReviewerFilter::Specific(names) => ReviewerFilterView::Specific(names.deep_view()),
        }
    }
}

impl Clone for ReviewerFilter {
    fn clone(&self) -> (r: Self)
        ensures
            r.deep_view() == self.deep_view(),
    {
        match self {
            ReviewerFilter::All => ReviewerFilter::All,
            ReviewerFilter::Humans => ReviewerFilter::Humans,
            ReviewerFilter::Specific(names) => {
                let copy = names.clone();
                assert(copy.deep_view() =~= names.deep_view());
                ReviewerFilter::Specific(copy)
            },
        }
    }
}

impl Default for ReviewerFilter {
    fn default() -> (r: Self)
        ensures
            r is All,
    {
        ReviewerFilter::All
    }
}

impl ReviewerFilter {
    /// The filter that a keyword stands for, or why it stands for none.
    pub fn from_keyword(word: &str) -> (r: std::result::Result<ReviewerFilter, String>)
        ensures
            match r {
                Ok(f) => (word@ == "all"@ && f is All) || (word@ == "humans"@ && word@ != "all"@ && f
                    is Humans),
                Err(m) => word@ != "all"@ && word@ != "humans"@ && m@ == "unknown review filter: \""@
                    + word@ + "\", expected \"all\", \"humans\", or a list"@,
            },
    {
        if str_eq(word, "all") {
            Ok(ReviewerFilter::All)
        } else if str_eq(word, "humans") {
            Ok(ReviewerFilter::Humans)
        } else {
            let mut m = "unknown review filter: \"".to_owned();
            m.append(word);
            m.append("\", expected \"all\", \"humans\", or a list");
            Err(m)
        }
    }
}

/// The reaction to review feedback on open pull requests.
#[derive(Debug)]
pub struct PrReviewConfig {
    /// Whether to monitor open PRs for review feedback. Defaults to false.
    pub enabled: bool,
    /// Liquid template for the PR review response prompt. If empty, the built-in
    /// one is used.
    pub prompt_template: String,
    /// Whose reviews to respond to.
    pub reviewers: ReviewerFilter,
}

/// What a `PrReviewConfig` holds.
#[verifier::ext_equal]
pub struct PrReviewConfigView {
    pub enabled: bool,
    pub prompt_template: Seq<char>,
    pub reviewers: ReviewerFilterView,
}

impl DeepView for PrReviewConfig {
    type V = PrReviewConfigView;

    open spec fn deep_view(&self) -> PrReviewConfigView {
        PrReviewConfigView {
            enabled: self.enabled,
            prompt_template: self.prompt_template@,
            reviewers: self.reviewers.deep_view(),
        }
    }
}

impl Clone for PrReviewConfig {
    fn clone(&self) -> (r: Self)
        ensures
            r.deep_view() == self.deep_view(),
    {
        PrReviewConfig {
            enabled: self.enabled,
            prompt_template: self.prompt_template.clone(),
            reviewers: self.reviewers.clone(),
        }
    }
}

impl Default for PrReviewConfig {
    fn default() -> (r: Self)
        ensures
            !r.enabled,
            r.prompt_template@.len() == 0,
            r.reviewers is All,
    {
        PrReviewConfig {
            enabled: false,
            prompt_template: String::new(),
            reviewers: ReviewerFilter::All,
        }
    }
}

/// How the pull request is opened after the agent commits its work: directly
/// with `gh pr create --draft`, or, where a workflow is named, by triggering
/// that GitHub Action in the target repo.
#[derive(Debug)]
pub struct PrCreationConfig {
    /// Filename (or path) of the workflow_dispatch GitHub Action in the target
    /// repo that opens the PR (e.g. "open-pr.yml"). Empty for none.
    pub workflow: String,
    /// Name of the workflow input that receives the source branch.
    pub branch_input: String,
    /// Name of the workflow input that receives the PR title.
    pub title_input: String,
    /// Name of the workflow input that receives the PR body.
    pub body_input: String,
    /// Maximum time to wait for the workflow to open the PR before giving up.
    pub poll_timeout_ms: u64,
    /// Interval between PR-poll attempts.
    pub poll_interval_ms: u64,
}

/// What a `PrCreationConfig` holds.
#[verifier::ext_equal]
pub struct PrCreationConfigView {
    pub workflow: Seq<char>,
    pub branch_input: Seq<char>,
    pub title_input: Seq<char>,
    pub body_input: Seq<char>,
    pub poll_timeout_ms: u64,
    pub poll_interval_ms: u64,
}

impl DeepView for PrCreationConfig {
    type V = PrCreationConfigView;

    open spec fn deep_view(&self) -> PrCreationConfigView {
        PrCreationConfigView {
            workflow: self.workflow@,
            branch_input: self.branch_input@,
            title_input: self.title_input@,
            body_input: self.body_input@,
            poll_timeout_ms: self.poll_timeout_ms,
            poll_interval_ms: self.poll_interval_ms,
        }
    }
}

impl Clone for PrCreationConfig {
    fn clone(&self) -> (r: Self)
        ensures
            r.deep_view() == self.deep_view(),
    {
        PrCreationConfig {
            workflow: self.workflow.clone(),
            branch_input: self.branch_input.clone(),
            title_input: self.title_input.clone(),
            body_input: self.body_input.clone(),
            poll_timeout_ms: self.poll_timeout_ms,
            poll_interval_ms: self.poll_interval_ms,
        }
    }
}

impl PrCreationConfig {
    pub open spec fn is_default(&self) -> bool {
        &&& self.workflow@.len() == 0
        &&& self.branch_input@ == "branch"@
        &&& self.title_input@ == "title"@
        &&& self.body_input@ == "body"@
        &&& self.poll_timeout_ms == 120_000
        &&& self.poll_interval_ms == 3_000
    }

    /// True when a workflow_dispatch PR-creation flow has been configured.
    pub fn is_workflow_dispatch(&self) -> (r: bool)
        ensures
            r == (self.workflow@.len() > 0),
    {
        !self.workflow.as_str().is_empty()
    }

    /// How long to wait for the pull request.
    pub fn poll_timeout(&self) -> (r: Duration)
        ensures
            r.nanos == self.poll_timeout_ms * 1_000_000,
    {
        Duration::from_millis(self.poll_timeout_ms)
    }

    /// How long to wait between two looks for the pull request.
    pub fn poll_interval(&self) -> (r: Duration)
        ensures
            r.nanos == self.poll_interval_ms * 1_000_000,
    {
        Duration::from_millis(self.poll_interval_ms)
    }
}

impl Default for PrCreationConfig {
    fn default() -> (r: Self)
        ensures
            r.is_default(),
    {
        PrCreationConfig {
            workflow: String::new(),
            branch_input: "branch".to_owned(),
            title_input: "title".to_owned(),
            body_input: "body".to_owned(),
            poll_timeout_ms: 120_000,
            poll_interval_ms: 3_000,
        }
    }
}

/// Without configuration, issues come from Notion: those to do or in progress, by the
/// usual names of its properties, whoever they are assigned to.
pub proof fn law_default_tracker(c: TrackerConfig)
    requires
        c.is_default(),
    ensures
        c.kind@ == "notion"@,
        c.mcp_command@ == "npx -y @notionhq/notion-mcp-server"@,
        c.mcp_url is None,
        c.database_id@.len() == 0,
        c.active_states.deep_view() == seq!["Todo"@, "In Progress"@],
        c.terminal_states.deep_view() == seq!["Done"@, "Cancelled"@],
        c.property_id@ == "ID"@,
        c.property_title@ == "Name"@,
        c.property_status@ == "Status"@,
        c.property_priority@ == "Priority"@,
        c.property_description@ == "Description"@,
        c.property_assignee@ == "Assignee"@,
        c.assignee_user_id is None,
        c.skip_if_set is None,
        c.id_prefix is None,
{
}

/// Without configuration, Sentry is not asked; where it is, five events make an issue,
/// called by the prefix "sentry:".
pub proof fn law_default_sentry(c: SentryConfig)
    requires
        c.is_default(),
    ensures
        !c.enabled,
        c.min_events == 5,
        c.id_prefix@ == "sentry:"@,
        c.mcp_url@ == "https://mcp.sentry.dev/mcp"@,
        c.org@.len() == 0,
        c.project@.len() == 0,
        c.query@.len() == 0,
{
}

/// Without configuration there are no hooks, and a hook may run for five minutes.
pub proof fn law_default_hooks(c: HooksConfig)
    requires
        c.is_default(),
    ensures
        c.after_create is None,
        c.before_run is None,
        c.after_run is None,
        c.before_remove is None,
        c.timeout_ms == 5 * 60 * 1000,
{
}

/// Without configuration no Action opens PRs; where one does, it is told the branch, the
/// title and the body under these names, and its PR is looked for every three seconds
/// for two minutes.
pub proof fn law_default_pr_creation(c: PrCreationConfig)
    requires
        c.is_default(),
    ensures
        c.workflow@.len() == 0,
        c.branch_input@ == "branch"@,
        c.title_input@ == "title"@,
        c.body_input@ == "body"@,
        c.poll_timeout_ms == 2 * 60 * 1000,
        c.poll_interval_ms == 3 * 1000,
{
}

} // verus!
