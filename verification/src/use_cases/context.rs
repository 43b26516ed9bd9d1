//! Per-invocation metadata passed into transport-neutral use cases.

use vstd::prelude::*;

verus! {

/// Identifies the logical command being executed.
#[derive(Debug, Clone, Copy, PartialEq, Eq, Structural)]
pub enum CommandName {
    Build,
    Test,
    Dump,
    Syntax,
    Launch,
}

/// The stable label of a command.
pub open spec fn command_label(c: CommandName) -> Seq<char> {
    match c {
        CommandName::Build => "build"@,
        CommandName::Test => "test"@,
        CommandName::Dump => "dump"@,
        CommandName::Syntax => "syntax"@,
        CommandName::Launch => "launch"@,
    }
}

impl CommandName {
    /// Returns the stable command label used in logs and CLI envelopes.
    pub fn as_str(self) -> (s: &'static str)
        ensures
            s@ == command_label(self),
    {
        match self {
            Self::Build => "build",
            Self::Test => "test",
            Self::Dump => "dump",
            Self::Syntax => "syntax",
            Self::Launch => "launch",
        }
    }
}

/// Describes the transport that invoked the use case.
#[derive(Debug, Clone, Copy, PartialEq, Eq, Structural)]
pub enum ExecutionTransport {
    /// Invocation from the existing CLI surface.
    Cli,
    /// Invocation from MCP over stdio.
    McpStdio,
    /// Invocation from MCP over HTTP.
    McpHttp,
}

/// An interruption requested at the command boundary.
#[derive(Debug, Clone, Copy, PartialEq, Eq, Structural)]
pub enum ExecutionInterruption {
    /// The caller cancelled the command.
    Cancelled,
    /// The command ran out of its time budget.
    TimedOut,
}

/// Per-invocation metadata passed into transport-neutral use cases.
#[derive(Debug, Clone, Copy, PartialEq, Eq, Structural)]
pub struct ExecutionContext {
    command: CommandName,
    transport: ExecutionTransport,
}

impl View for ExecutionContext {
    type V = (CommandName, ExecutionTransport);

    closed spec fn view(&self) -> (CommandName, ExecutionTransport) {
        (self.command, self.transport)
    }
}

impl ExecutionContext {
    /// Creates an execution context for the specified command and transport.
    pub fn new(command: CommandName, transport: ExecutionTransport) -> (c: Self)
        ensures
            c@ == (command, transport),
    {
        Self { command, transport }
    }

    /// Creates a CLI execution context for the specified command.
    pub fn cli(command: CommandName) -> (c: Self)
        ensures
            c@ == (command, ExecutionTransport::Cli),
    {
        Self::new(command, ExecutionTransport::Cli)
    }

    /// Creates an MCP stdio execution context for the specified command.
    pub fn mcp_stdio(command: CommandName) -> (c: Self)
        ensures
            c@ == (command, ExecutionTransport::McpStdio),
    {
        Self::new(command, ExecutionTransport::McpStdio)
    }

    /// Creates an MCP HTTP execution context for the specified command.
    pub fn mcp_http(command: CommandName) -> (c: Self)
        ensures
            c@ == (command, ExecutionTransport::McpHttp),
    {
        Self::new(command, ExecutionTransport::McpHttp)
    }

    /// Returns the command being executed.
    pub fn command(self) -> (c: CommandName)
        ensures
            c == self@.0,
    {
        self.command
    }

    /// Returns the transport that initiated this execution.
    pub fn transport(self) -> (t: ExecutionTransport)
        ensures
            t == self@.1,
    {
        self.transport
    }
}

} // verus!
