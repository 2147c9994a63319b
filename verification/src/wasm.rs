//! The WebAssembly runner policy: module source selection, per-call resource
//! limits, and the classification of engine failures. The engine itself runs
//! outside; it receives a job with the exact bytes, export name, parameters
//! and limits decided here.

use vstd::prelude::*;

use crate::errors::SandboxError;
use crate::errors::invalid_operation_with;
use crate::path::{ensure_absolute_base, resolve, resolve_matches};

verus! {

/// Immutable settings of the WebAssembly runner.
#[derive(Debug)]
pub struct WasmConfig {
    root: String,
    max_memory_bytes: u64,
    max_table_elements: u32,
    default_fuel: Option<u64>,
}

impl WasmConfig {
    pub closed spec fn spec_root(&self) -> Seq<char> {
        self.root@
    }

    pub closed spec fn spec_max_memory_bytes(&self) -> u64 {
        self.max_memory_bytes
    }

    pub closed spec fn spec_max_table_elements(&self) -> u32 {
        self.max_table_elements
    }

    pub closed spec fn spec_default_fuel(&self) -> Option<u64> {
        self.default_fuel
    }

    /// Validates the runner's settings: positive memory and table limits and
    /// an absolute root.
    pub fn new(
        root: &str,
        max_memory_bytes: u64,
        max_table_elements: u32,
        default_fuel: Option<u64>,
    ) -> (r: Result<WasmConfig, SandboxError>)
        ensures
            r is Ok <==> max_memory_bytes > 0 && max_table_elements > 0 && root@.len() > 0
                && root@.first() == '/',
            r matches Ok(c) ==> c.spec_root() == root@ && c.spec_max_memory_bytes()
                == max_memory_bytes && c.spec_max_table_elements() == max_table_elements
                && c.spec_default_fuel() == default_fuel,
            r matches Err(e) ==> e is InvalidOperation,
    {
        if max_memory_bytes == 0 {
            return Err(SandboxError::InvalidOperation(String::from_str(
                "wasm memory limit must be greater than zero",
            )));
        }
        if max_table_elements == 0 {
            return Err(SandboxError::InvalidOperation(String::from_str(
                "wasm table element limit must be greater than zero",
            )));
        }
        let anchored = ensure_absolute_base(root)?;
        Ok(WasmConfig { root: anchored, max_memory_bytes, max_table_elements, default_fuel })
    }

    pub fn root(&self) -> (r: &str)
        ensures
            r@ == self.spec_root(),
    {
        self.root.as_str()
    }

    pub fn max_memory_bytes(&self) -> (r: u64)
        ensures
            r == self.spec_max_memory_bytes(),
    {
        self.max_memory_bytes
    }

    pub fn max_table_elements(&self) -> (r: u32)
        ensures
            r == self.spec_max_table_elements(),
    {
        self.max_table_elements
    }

    pub fn default_fuel(&self) -> (r: Option<u64>)
        ensures
            r == self.spec_default_fuel(),
    {
        self.default_fuel
    }
}

/// Where the module bytes come from: a file under the root, or inline.
#[derive(Debug)]
pub enum WasmModuleSource {
    Path(String),
    Bytes(Vec<u8>),
}

impl WasmModuleSource {
    pub fn from_path(path: &str) -> (r: WasmModuleSource)
        ensures
            r matches WasmModuleSource::Path(p) && p@ == path@,
    {
        WasmModuleSource::Path(String::from_str(path))
    }

    pub fn from_bytes(bytes: Vec<u8>) -> (r: WasmModuleSource)
        ensures
            r matches WasmModuleSource::Bytes(b) && b@ == bytes@,
    {
        WasmModuleSource::Bytes(bytes)
    }
}

/// A typed WebAssembly value. Floating-point values are carried as their
/// IEEE 754 bit patterns, which preserves them exactly.
#[derive(Debug, Clone, Copy, PartialEq, Eq, Structural)]
pub enum WasmValue {
    I32(i32),
    I64(i64),
    F32Bits(u32),
    F64Bits(u64),
}

/// A request to invoke one export of a module.
#[derive(Debug)]
pub struct WasmInvocation {
    pub module: WasmModuleSource,
    pub function: String,
    pub params: Vec<WasmValue>,
    pub fuel: Option<u64>,
    pub memory_limit: Option<u64>,
    pub table_elements_limit: Option<u32>,
}

impl WasmInvocation {
    pub fn new(module: WasmModuleSource, function: &str) -> (r: WasmInvocation)
        ensures
            r.module == module,
            r.function@ == function@,
            r.params@ == Seq::<WasmValue>::empty(),
            r.fuel is None,
            r.memory_limit is None,
            r.table_elements_limit is None,
    {
        WasmInvocation {
            module,
            function: String::from_str(function),
            params: Vec::new(),
            fuel: None,
            memory_limit: None,
            table_elements_limit: None,
        }
    }

    pub fn with_params(self, params: Vec<WasmValue>) -> (r: WasmInvocation)
        ensures
            r == (WasmInvocation { params, ..self }),
    {
        WasmInvocation { params, ..self }
    }

    pub fn with_fuel(self, fuel: u64) -> (r: WasmInvocation)
        ensures
            r == (WasmInvocation { fuel: Some(fuel), ..self }),
    {
        WasmInvocation { fuel: Some(fuel), ..self }
    }

    pub fn with_memory_limit(self, bytes: u64) -> (r: WasmInvocation)
        ensures
            r == (WasmInvocation { memory_limit: Some(bytes), ..self }),
    {
        WasmInvocation { memory_limit: Some(bytes), ..self }
    }

    pub fn with_table_elements_limit(self, elements: u32) -> (r: WasmInvocation)
        ensures
            r == (WasmInvocation { table_elements_limit: Some(elements), ..self }),
    {
        WasmInvocation { table_elements_limit: Some(elements), ..self }
    }
}

/// Where a job's module bytes are found: a resolved absolute file, or the
/// inline buffer itself.
#[derive(Debug)]
pub enum WasmModuleLocation {
    File(String),
    Inline(Vec<u8>),
}

/// An admitted invocation: the engine must load the module from `location`,
/// apply exactly the fuel and limits given, instantiate with no imports, and
/// call `function` with `params`.
#[derive(Debug)]
pub struct WasmJob {
    pub location: WasmModuleLocation,
    pub function: String,
    pub params: Vec<WasmValue>,
    pub fuel: Option<u64>,
    pub memory_limit: u64,
    pub table_elements_limit: u32,
}

/// The WebAssembly runner: holds the configuration and admits invocations.
#[derive(Debug)]
pub struct SandboxWasm {
    config: WasmConfig,
}

impl SandboxWasm {
    pub closed spec fn spec_config(&self) -> WasmConfig {
        self.config
    }

    pub fn new(config: WasmConfig) -> (r: SandboxWasm)
        ensures
            r.spec_config() == config,
    {
        SandboxWasm { config }
    }

    pub fn config(&self) -> (r: &WasmConfig)
        ensures
            *r == self.spec_config(),
    {
        &self.config
    }

    /// Admits or rejects an invocation: a by-path module is resolved under
    /// the root; per-call limits override the defaults and a zero limit is
    /// rejected; absent fuel falls back to the configured default, which may
    /// be none.
    pub fn plan_invoke(&self, invocation: WasmInvocation) -> (r: Result<WasmJob, SandboxError>)
        ensures
            ({
                let cfg = self.spec_config();
                let memory = if invocation.memory_limit is Some {
                    invocation.memory_limit->Some_0
                } else {
                    cfg.spec_max_memory_bytes()
                };
                let table = if invocation.table_elements_limit is Some {
                    invocation.table_elements_limit->Some_0
                } else {
                    cfg.spec_max_table_elements()
                };
                if invocation.module matches WasmModuleSource::Path(p) && crate::path::resolve_fails(
                    p@,
                ) {
                    r matches Err(e) && resolve_matches(
                        cfg.spec_root(),
                        (invocation.module->Path_0)@,
                        Err(e),
                    )
                } else if memory == 0 || table == 0 {
                    r matches Err(e) && e is InvalidOperation
                } else {
                    r matches Ok(job) && {
                        &&& (match invocation.module {
                            WasmModuleSource::Path(p) => job.location matches
                                WasmModuleLocation::File(f) && resolve_matches(
                                cfg.spec_root(),
                                p@,
                                Ok(f),
                            ),
                            WasmModuleSource::Bytes(b) => job.location matches
                                WasmModuleLocation::Inline(ib) && ib == b,
                        })
                        &&& job.function == invocation.function
                        &&& job.params == invocation.params
                        &&& job.fuel == (if invocation.fuel is Some {
                            invocation.fuel
                        } else {
                            cfg.spec_default_fuel()
                        })
                        &&& job.memory_limit == memory
                        &&& job.table_elements_limit == table
                    }
                }
            }),
    {
        let location = match invocation.module {
            WasmModuleSource::Path(p) => {
                let resolved = resolve(self.config.root.as_str(), p.as_str())?;
                WasmModuleLocation::File(resolved)
            },
            WasmModuleSource::Bytes(b) => WasmModuleLocation::Inline(b),
        };
        let memory_limit: u64 = match invocation.memory_limit {
            Some(m) => m,
            None => self.config.max_memory_bytes,
        };
        if memory_limit == 0 {
            return Err(SandboxError::InvalidOperation(String::from_str(
                "wasm memory limit must be greater than zero",
            )));
        }
        let table_elements_limit: u32 = match invocation.table_elements_limit {
            Some(t) => t,
            None => self.config.max_table_elements,
        };
        if table_elements_limit == 0 {
            return Err(SandboxError::InvalidOperation(String::from_str(
                "wasm table element limit must be greater than zero",
            )));
        }
        let fuel: Option<u64> = match invocation.fuel {
            Some(f) => Some(f),
            None => self.config.default_fuel,
        };
        Ok(WasmJob {
            location,
            function: invocation.function,
            params: invocation.params,
            fuel,
            memory_limit,
            table_elements_limit,
        })
    }
}

/// Picks the module source out of the transport's two optional fields:
/// both present or neither is rejected, and so is an empty inline buffer.
pub fn resolve_wasm_module(by_path: Option<String>, inline: Option<Vec<u8>>) -> (r: Result<
    WasmModuleSource,
    SandboxError,
>)
    ensures
        by_path is Some && inline is Some ==> (r matches Err(e) && invalid_operation_with(
            e,
            "specify either a module path or inline module bytes"@,
        )),
        by_path is None && inline is None ==> (r matches Err(e) && invalid_operation_with(
            e,
            "missing wasm module source"@,
        )),
        by_path is Some && inline is None ==> (r matches Ok(s) && (
        s matches WasmModuleSource::Path(p) && p@ == (by_path->Some_0)@)),
        by_path is None && inline is Some && (inline->Some_0)@.len() == 0 ==> (r matches Err(e)
            && invalid_operation_with(e, "inline module bytes must not be empty"@)),
        by_path is None && inline is Some && (inline->Some_0)@.len() > 0 ==> (r matches Ok(s) && (
        s matches WasmModuleSource::Bytes(b) && b@ == (inline->Some_0)@)),
{
    match (by_path, inline) {
        (Some(_), Some(_)) => Err(SandboxError::InvalidOperation(String::from_str(
            "specify either a module path or inline module bytes",
        ))),
        (None, None) => Err(SandboxError::InvalidOperation(String::from_str(
            "missing wasm module source",
        ))),
        (Some(p), None) => Ok(WasmModuleSource::Path(p)),
        (None, Some(b)) => {
            if b.len() == 0 {
                Err(SandboxError::InvalidOperation(String::from_str(
                    "inline module bytes must not be empty",
                )))
            } else {
                Ok(WasmModuleSource::Bytes(b))
            }
        },
    }
}

/// A failed compilation is an `InvalidOperation` naming the cause.
pub fn wasm_compile_error(detail: &str) -> (r: SandboxError)
    ensures
        invalid_operation_with(r, "failed to compile wasm module: "@ + detail@),
{
    let mut msg = String::from_str("failed to compile wasm module: ");
    msg.append(detail);
    SandboxError::InvalidOperation(msg)
}

/// A failed instantiation is an `InvalidOperation` naming the cause.
pub fn wasm_instantiate_error(detail: &str) -> (r: SandboxError)
    ensures
        invalid_operation_with(r, "failed to instantiate wasm module: "@ + detail@),
{
    let mut msg = String::from_str("failed to instantiate wasm module: ");
    msg.append(detail);
    SandboxError::InvalidOperation(msg)
}

/// A missing or non-function export is an `InvalidOperation` naming it.
pub fn wasm_export_error(name: &str, detail: &str) -> (r: SandboxError)
    ensures
        invalid_operation_with(
            r,
            "failed to locate exported function '"@ + name@ + "': "@ + detail@,
        ),
{
    let mut msg = String::from_str("failed to locate exported function '");
    msg.append(name);
    msg.append("': ");
    msg.append(detail);
    SandboxError::InvalidOperation(msg)
}

/// A trap, fuel exhaustion and memory overruns included, is a `WasmTrap`.
pub fn wasm_trap_error(detail: &str) -> (r: SandboxError)
    ensures
        r matches SandboxError::WasmTrap(m) && m@ == detail@,
{
    SandboxError::WasmTrap(String::from_str(detail))
}

/// A return value outside the four numeric types is an `InvalidOperation`.
pub fn wasm_unsupported_return_error(detail: &str) -> (r: SandboxError)
    ensures
        invalid_operation_with(r, "unsupported wasm return value: "@ + detail@),
{
    let mut msg = String::from_str("unsupported wasm return value: ");
    msg.append(detail);
    SandboxError::InvalidOperation(msg)
}

} // verus!
