//! What can go wrong.
use vstd::prelude::*;
use crate::text::cat2;

verus! {

/// An error, by the part of the system it comes from.
#[derive(Debug)]
pub enum Error {
    Config(String),
    ConfigParse(String),
    Workflow(String),
    Tracker(String),
    Mcp(String),
    Workspace(String),
    Agent(String),
    AgentProtocol(String),
    Prompt(String),
    Hook(String),
    Orchestrator(String),
    Server(String),
    Io(String),
    Json(String),
    Yaml(String),
}

pub type Result<T> = std::result::Result<T, Error>;

/// The part of the system that an error comes from.
#[derive(Debug, Clone, Copy, PartialEq, Eq, Structural)]
pub enum ErrorKind {
    Config,
    ConfigParse,
    Workflow,
    Tracker,
    Mcp,
    Workspace,
    Agent,
    AgentProtocol,
    Prompt,
    Hook,
    Orchestrator,
    Server,
    Io,
    Json,
    Yaml,
}

impl DeepView for Error {
    type V = (ErrorKind, Seq<char>);

    open spec fn deep_view(&self) -> (ErrorKind, Seq<char>) {
        (self.kind(), self.detail())
    }
}

impl Error {
    /// The part of the system that the error comes from.
    pub open spec fn kind(&self) -> ErrorKind {
        match self {
            Error::Config(_) => ErrorKind::Config,
            Error::ConfigParse(_) => ErrorKind::ConfigParse,
            Error::Workflow(_) => ErrorKind::Workflow,
            Error::Tracker(_) => ErrorKind::Tracker,
            Error::Mcp(_) => ErrorKind::Mcp,
            Error::Workspace(_) => ErrorKind::Workspace,
            Error::Agent(_) => ErrorKind::Agent,
            Error::AgentProtocol(_) => ErrorKind::AgentProtocol,
            Error::Prompt(_) => ErrorKind::Prompt,
            Error::Hook(_) => ErrorKind::Hook,
            Error::Orchestrator(_) => ErrorKind::Orchestrator,
            Error::Server(_) => ErrorKind::Server,
            Error::Io(_) => ErrorKind::Io,
            Error::Json(_) => ErrorKind::Json,
            Error::Yaml(_) => ErrorKind::Yaml,
        }
    }

    /// What the message of an error starts with.
    pub open spec fn prefix(&self) -> Seq<char> {
        match self {
            Error::Config(_) => "config error: "@,
            Error::ConfigParse(_) => "config parse error: "@,
            Error::Workflow(_) => "workflow file error: "@,
            Error::Tracker(_) => "tracker error: "@,
            Error::Mcp(_) => "MCP protocol error: "@,
            Error::Workspace(_) => "workspace error: "@,
            Error::Agent(_) => "agent error: "@,
            Error::AgentProtocol(_) => "agent protocol error: "@,
            Error::Prompt(_) => "prompt render error: "@,
            Error::Hook(_) => "hook execution error: "@,
            Error::Orchestrator(_) => "orchestrator error: "@,
            Error::Server(_) => "server error: "@,
            Error::Io(_) => "io error: "@,
            Error::Json(_) => "json error: "@,
            Error::Yaml(_) => "yaml error: "@,
        }
    }

    /// What an error says beyond where it comes from.
    pub open spec fn detail(&self) -> Seq<char> {
        match self {
            Error::Config(m) => m@,
            Error::ConfigParse(m) => m@,
            Error::Workflow(m) => m@,
            Error::Tracker(m) => m@,
            Error::Mcp(m) => m@,
            Error::Workspace(m) => m@,
            Error::Agent(m) => m@,
            Error::AgentProtocol(m) => m@,
            Error::Prompt(m) => m@,
            Error::Hook(m) => m@,
            Error::Orchestrator(m) => m@,
            Error::Server(m) => m@,
            Error::Io(m) => m@,
            Error::Json(m) => m@,
            Error::Yaml(m) => m@,
        }
    }

    /// The message of an error.
    pub fn message(&self) -> (r: String)
        ensures
            r@ == self.prefix() + self.detail(),
    {
        match self {
            Error::Config(m) => cat2("config error: ", m.as_str()),
            Error::ConfigParse(m) => cat2("config parse error: ", m.as_str()),
            Error::Workflow(m) => cat2("workflow file error: ", m.as_str()),
            Error::Tracker(m) => cat2("tracker error: ", m.as_str()),
            Error::Mcp(m) => cat2("MCP protocol error: ", m.as_str()),
            Error::Workspace(m) => cat2("workspace error: ", m.as_str()),
            Error::Agent(m) => cat2("agent error: ", m.as_str()),
            Error::AgentProtocol(m) => cat2("agent protocol error: ", m.as_str()),
            Error::Prompt(m) => cat2("prompt render error: ", m.as_str()),
            Error::Hook(m) => cat2("hook execution error: ", m.as_str()),
            Error::Orchestrator(m) => cat2("orchestrator error: ", m.as_str()),
            Error::Server(m) => cat2("server error: ", m.as_str()),
            Error::Io(m) => cat2("io error: ", m.as_str()),
            Error::Json(m) => cat2("json error: ", m.as_str()),
            Error::Yaml(m) => cat2("yaml error: ", m.as_str()),
        }
    }
}

/// A message says first which part of the system the error comes from.
pub proof fn law_messages_say_where(m: String)
    ensures
        Error::Config(m).prefix() == "config error: "@,
        Error::ConfigParse(m).prefix() == "config parse error: "@,
        Error::Workflow(m).prefix() == "workflow file error: "@,
        Error::Tracker(m).prefix() == "tracker error: "@,
        Error::Mcp(m).prefix() == "MCP protocol error: "@,
        Error::Workspace(m).prefix() == "workspace error: "@,
        Error::Agent(m).prefix() == "agent error: "@,
        Error::AgentProtocol(m).prefix() == "agent protocol error: "@,
        Error::Prompt(m).prefix() == "prompt render error: "@,
        Error::Hook(m).prefix() == "hook execution error: "@,
        Error::Orchestrator(m).prefix() == "orchestrator error: "@,
        Error::Server(m).prefix() == "server error: "@,
        Error::Io(m).prefix() == "io error: "@,
        Error::Json(m).prefix() == "json error: "@,
        Error::Yaml(m).prefix() == "yaml error: "@,
{
}

} // verus!
