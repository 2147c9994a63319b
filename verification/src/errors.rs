//! The unified error taxonomy shared by every sandbox component.

use vstd::prelude::*;

use crate::text::decimal;
use crate::text::render_u64;

verus! {

/// Which captured stream of a child process overflowed its cap.
#[derive(Debug, Clone, Copy, PartialEq, Eq, Structural)]
pub enum StreamKind {
    Stdout,
    Stderr,
}

/// Every failure a sandbox operation can surface to a caller.
///
/// Durations and timeouts are carried in milliseconds; identifiers of
/// micro-VM instances and agent tasks are the numeric ids the registries
/// allocate.
#[derive(Debug, Clone, PartialEq, Eq)]
pub enum SandboxError {
    PathTraversal,
    OutsideRoot,
    FileTooLarge(u64),
    Timeout(u64),
    OutputTooLarge { stream: StreamKind, limit: usize },
    TerminatedBySignal,
    Io(String),
    InvalidOperation(String),
    WasmTrap(String),
    MicroImageNotConfigured(String),
    MicroVmNotFound(u64),
    AgentUnavailable(String),
    AgentTaskNotFound(u64),
    ContextTooLarge { provided: usize, limit: usize },
    AgentFailed(String),
    Network(String),
    Cancelled,
}

/// Holds when `e` is an `InvalidOperation` whose message reads `msg`.
pub open spec fn invalid_operation_with(e: SandboxError, msg: Seq<char>) -> bool {
    e matches SandboxError::InvalidOperation(m) && m@ == msg
}

/// The stable one-line rendering of each error.
pub open spec fn message_spec(e: SandboxError) -> Seq<char> {
    match e {
        SandboxError::PathTraversal => "path traversal detected"@,
        SandboxError::OutsideRoot => "operation outside sandbox root"@,
        SandboxError::FileTooLarge(size) => "file too large: "@ + decimal(size)
            + " bytes exceeds limit"@,
        SandboxError::Timeout(ms) => "execution timed out after "@ + decimal(ms) + " ms"@,
        SandboxError::OutputTooLarge { stream, limit } => "process produced "@ + (match stream {
            StreamKind::Stdout => "stdout"@,
            StreamKind::Stderr => "stderr"@,
        }) + " output exceeding limit of "@ + decimal(limit as u64) + " bytes"@,
        SandboxError::TerminatedBySignal => "process terminated by signal"@,
        SandboxError::Io(m) => "io error: "@ + m@,
        SandboxError::InvalidOperation(m) => "invalid operation: "@ + m@,
        SandboxError::WasmTrap(m) => "wasm trap: "@ + m@,
        SandboxError::MicroImageNotConfigured(n) => "micro image '"@ + n@
            + "' is not configured"@,
        SandboxError::MicroVmNotFound(id) => "micro vm '"@ + decimal(id) + "' not found"@,
        SandboxError::AgentUnavailable(k) => "agent '"@ + k@ + "' is not registered"@,
        SandboxError::AgentTaskNotFound(id) => "agent task '"@ + decimal(id) + "' not found"@,
        SandboxError::ContextTooLarge { provided, limit } => "agent context size "@ + decimal(
            provided as u64,
        ) + " bytes exceeds limit "@ + decimal(limit as u64),
        SandboxError::AgentFailed(m) => "agent execution failed: "@ + m@,
        SandboxError::Network(m) => "network request failed: "@ + m@,
        SandboxError::Cancelled => "agent operation cancelled"@,
    }
}

impl SandboxError {
    /// Renders the error as its stable one-line message.
    pub fn message(&self) -> (r: String)
        ensures
            r@ == message_spec(*self),
    {
        match self {
            SandboxError::PathTraversal => String::from_str("path traversal detected"),
            SandboxError::OutsideRoot => String::from_str("operation outside sandbox root"),
            SandboxError::FileTooLarge(size) => {
                let mut s = String::from_str("file too large: ");
                s.append(render_u64(*size).as_str());
                s.append(" bytes exceeds limit");
                s
            },
            SandboxError::Timeout(ms) => {
                let mut s = String::from_str("execution timed out after ");
                s.append(render_u64(*ms).as_str());
                s.append(" ms");
                s
            },
            SandboxError::OutputTooLarge { stream, limit } => {
                let mut s = String::from_str("process produced ");
                match stream {
                    StreamKind::Stdout => s.append("stdout"),
                    StreamKind::Stderr => s.append("stderr"),
                }
                s.append(" output exceeding limit of ");
                s.append(render_u64(*limit as u64).as_str());
                s.append(" bytes");
                s
            },
            SandboxError::TerminatedBySignal => String::from_str("process terminated by signal"),
            SandboxError::Io(m) => {
                let mut s = String::from_str("io error: ");
                s.append(m.as_str());
                s
            },
            SandboxError::InvalidOperation(m) => {
                let mut s = String::from_str("invalid operation: ");
                s.append(m.as_str());
                s
            },
            SandboxError::WasmTrap(m) => {
                let mut s = String::from_str("wasm trap: ");
                s.append(m.as_str());
                s
            },
            SandboxError::MicroImageNotConfigured(n) => {
                let mut s = String::from_str("micro image '");
                s.append(n.as_str());
                s.append("' is not configured");
                s
            },
            SandboxError::MicroVmNotFound(id) => {
                let mut s = String::from_str("micro vm '");
                s.append(render_u64(*id).as_str());
                s.append("' not found");
                s
            },
            SandboxError::AgentUnavailable(k) => {
                let mut s = String::from_str("agent '");
                s.append(k.as_str());
                s.append("' is not registered");
                s
            },
            SandboxError::AgentTaskNotFound(id) => {
                let mut s = String::from_str("agent task '");
                s.append(render_u64(*id).as_str());
                s.append("' not found");
                s
            },
            SandboxError::ContextTooLarge { provided, limit } => {
                let mut s = String::from_str("agent context size ");
                s.append(render_u64(*provided as u64).as_str());
                s.append(" bytes exceeds limit ");
                s.append(render_u64(*limit as u64).as_str());
                s
            },
            SandboxError::AgentFailed(m) => {
                let mut s = String::from_str("agent execution failed: ");
                s.append(m.as_str());
                s
            },
            SandboxError::Network(m) => {
                let mut s = String::from_str("network request failed: ");
                s.append(m.as_str());
                s
            },
            SandboxError::Cancelled => String::from_str("agent operation cancelled"),
        }
    }
}

} // verus!
