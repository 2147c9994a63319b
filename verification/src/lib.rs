//! A verified policy core for a multi-tenant developer-studio sandbox.
//!
//! The library confines user-supplied paths to a workspace root, enforces
//! quotas for filesystem, process, WebAssembly and micro-VM operations, and
//! tracks asynchronous agent tasks through a registry with bounded history.
//! Every decision the sandbox makes is taken here, under a contract; the
//! surrounding runtime performs the actual I/O and hands outcomes back.

pub mod access;
pub mod agent_dispatcher;
pub mod codec;
pub mod errors;
pub mod fs;
pub mod micro;
pub mod path;
pub mod project;
pub mod run;
pub mod text;
pub mod wasm;

pub use agent_dispatcher::{
    AgentAction, AgentContext, AgentContextFile, AgentDispatchRequest, AgentDispatcher,
    AgentDispatcherConfig, AgentFileContent, AgentKind, AgentMetadata, AgentOutcome,
    AgentParameters, AgentTaskSnapshot, AgentTaskStatus, AgentTaskSubmission,
};
pub use errors::SandboxError;
pub use errors::StreamKind;
pub use fs::{FileEntry, SandboxConfig, SandboxFs};
pub use micro::{
    MicroConfig, MicroExecuteRequest, MicroImage, MicroInstance, MicroOutput, MicroStartRequest,
    SandboxMicro,
};
pub use wasm::{SandboxWasm, WasmConfig, WasmInvocation, WasmModuleSource, WasmValue};
