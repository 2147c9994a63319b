//! The process runner policy: allow-listed programs, a scrubbed environment,
//! deadline validation and bounded output capture.
//!
//! `prepare` turns a run request into a spawn plan the runtime may execute;
//! `finish` judges what came back. No process is spawned without a plan, and
//! a plan exists only for requests the policy admits.

use vstd::prelude::*;

use crate::errors::{SandboxError, StreamKind};
use crate::errors::invalid_operation_with;
use crate::path::{ensure_absolute_base, resolve, resolve_fails, resolve_matches};

verus! {

/// Whether some string of `list` reads `x`.
pub open spec fn contains_text(list: Seq<String>, x: Seq<char>) -> bool {
    exists|i: int| 0 <= i < list.len() && list[i]@ == x
}

/// Whether every key of `env` is named by `allow`.
pub open spec fn keys_allowed(env: Seq<(String, String)>, allow: Seq<String>) -> bool {
    forall|i: int| 0 <= i < env.len() ==> contains_text(allow, #[trigger] env[i].0@)
}

/// Linear membership test against an allow-list.
pub fn contains_string(list: &Vec<String>, x: &str) -> (r: bool)
    ensures
        r == contains_text(list@, x@),
{
    let mut i: usize = 0;
    while i < list.len()
        invariant
            i <= list@.len(),
            forall|j: int| 0 <= j < i ==> list@[j]@ != x@,
        decreases list@.len() - i,
    {
        if crate::text::str_eq(list[i].as_str(), x) {
            return true;
        }
        i = i + 1;
    }
    false
}

/// The message `prepare` rejects a disallowed program with.
pub open spec fn program_rejected_msg(program: Seq<char>) -> Seq<char> {
    "program '"@ + program + "' is not permitted inside the sandbox"@
}

/// Immutable settings of the process runner.
#[derive(Debug)]
pub struct RunConfig {
    root: String,
    allowed_programs: Vec<String>,
    env_allowlist: Vec<String>,
    fixed_env: Vec<(String, String)>,
    default_timeout_ms: u64,
    max_timeout_ms: u64,
    max_output_bytes: usize,
}

impl RunConfig {
    pub closed spec fn spec_root(&self) -> Seq<char> {
        self.root@
    }

    pub closed spec fn spec_allowed_programs(&self) -> Seq<String> {
        self.allowed_programs@
    }

    pub closed spec fn spec_env_allowlist(&self) -> Seq<String> {
        self.env_allowlist@
    }

    pub closed spec fn spec_fixed_env(&self) -> Seq<(String, String)> {
        self.fixed_env@
    }

    pub closed spec fn spec_default_timeout_ms(&self) -> u64 {
        self.default_timeout_ms
    }

    pub closed spec fn spec_max_timeout_ms(&self) -> u64 {
        self.max_timeout_ms
    }

    pub closed spec fn spec_max_output_bytes(&self) -> usize {
        self.max_output_bytes
    }

    /// Validates the construction-time constraints: a positive output cap,
    /// a maximum timeout at least the default, at least one allowed program,
    /// and an absolute root.
    pub fn new(
        root: &str,
        allowed_programs: Vec<String>,
        env_allowlist: Vec<String>,
        fixed_env: Vec<(String, String)>,
        default_timeout_ms: u64,
        max_timeout_ms: u64,
        max_output_bytes: usize,
    ) -> (r: Result<RunConfig, SandboxError>)
        ensures
            r is Ok <==> max_output_bytes > 0 && max_timeout_ms >= default_timeout_ms
                && allowed_programs@.len() > 0 && root@.len() > 0 && root@.first() == '/',
            r matches Ok(c) ==> c.spec_root() == root@ && c.spec_allowed_programs()
                == allowed_programs@ && c.spec_env_allowlist() == env_allowlist@
                && c.spec_fixed_env() == fixed_env@ && c.spec_default_timeout_ms()
                == default_timeout_ms && c.spec_max_timeout_ms() == max_timeout_ms
                && c.spec_max_output_bytes() == max_output_bytes,
            r matches Err(e) ==> e is InvalidOperation,
    {
        if max_output_bytes == 0 {
            return Err(SandboxError::InvalidOperation(String::from_str(
                "max_output_bytes must be greater than zero",
            )));
        }
        if max_timeout_ms < default_timeout_ms {
            return Err(SandboxError::InvalidOperation(String::from_str(
                "max_timeout must be greater than or equal to default_timeout",
            )));
        }
        if allowed_programs.len() == 0 {
            return Err(SandboxError::InvalidOperation(String::from_str(
                "at least one program must be allowed",
            )));
        }
        let anchored = ensure_absolute_base(root)?;
        Ok(RunConfig {
            root: anchored,
            allowed_programs,
            env_allowlist,
            fixed_env,
            default_timeout_ms,
            max_timeout_ms,
            max_output_bytes,
        })
    }

    pub fn root(&self) -> (r: &str)
        ensures
            r@ == self.spec_root(),
    {
        self.root.as_str()
    }

    pub fn allowed_programs(&self) -> (r: &Vec<String>)
        ensures
            r@ == self.spec_allowed_programs(),
    {
        &self.allowed_programs
    }

    pub fn default_timeout_ms(&self) -> (r: u64)
        ensures
            r == self.spec_default_timeout_ms(),
    {
        self.default_timeout_ms
    }

    pub fn max_timeout_ms(&self) -> (r: u64)
        ensures
            r == self.spec_max_timeout_ms(),
    {
        self.max_timeout_ms
    }

    pub fn max_output_bytes(&self) -> (r: usize)
        ensures
            r == self.spec_max_output_bytes(),
    {
        self.max_output_bytes
    }
}

/// One request to run a program.
#[derive(Debug)]
pub struct RunRequest {
    pub program: String,
    pub args: Vec<String>,
    pub env: Vec<(String, String)>,
    pub stdin: Option<Vec<u8>>,
    pub working_dir: Option<String>,
    pub timeout_ms: Option<u64>,
}

impl RunRequest {
    pub fn new(program: &str) -> (r: RunRequest)
        ensures
            r.program@ == program@,
            r.args@ == Seq::<String>::empty(),
            r.env@ == Seq::<(String, String)>::empty(),
            r.stdin is None,
            r.working_dir is None,
            r.timeout_ms is None,
    {
        RunRequest {
            program: String::from_str(program),
            args: Vec::new(),
            env: Vec::new(),
            stdin: None,
            working_dir: None,
            timeout_ms: None,
        }
    }

    pub fn with_args(self, args: Vec<String>) -> (r: RunRequest)
        ensures
            r == (RunRequest { args, ..self }),
    {
        RunRequest { args, ..self }
    }

    pub fn with_env(self, env: Vec<(String, String)>) -> (r: RunRequest)
        ensures
            r == (RunRequest { env, ..self }),
    {
        RunRequest { env, ..self }
    }

    pub fn with_stdin(self, stdin: Vec<u8>) -> (r: RunRequest)
        ensures
            r == (RunRequest { stdin: Some(stdin), ..self }),
    {
        RunRequest { stdin: Some(stdin), ..self }
    }

    pub fn with_working_dir(self, dir: &str) -> (r: RunRequest)
        ensures
            r.working_dir matches Some(d) && d@ == dir@,
            r.program == self.program && r.args == self.args && r.env == self.env && r.stdin
                == self.stdin && r.timeout_ms == self.timeout_ms,
    {
        RunRequest { working_dir: Some(String::from_str(dir)), ..self }
    }

    pub fn with_timeout_ms(self, timeout_ms: u64) -> (r: RunRequest)
        ensures
            r == (RunRequest { timeout_ms: Some(timeout_ms), ..self }),
    {
        RunRequest { timeout_ms: Some(timeout_ms), ..self }
    }
}

/// A spawn the policy has admitted: the exact program, arguments,
/// environment, working directory, deadline and output cap the runtime must
/// apply.
#[derive(Debug)]
pub struct RunPlan {
    pub program: String,
    pub args: Vec<String>,
    pub env: Vec<(String, String)>,
    pub stdin: Option<Vec<u8>>,
    pub working_dir: String,
    pub timeout_ms: u64,
    pub max_output_bytes: usize,
}

/// What a terminated child process looked like to the runtime.
#[derive(Debug)]
pub struct RawProcessOutput {
    pub exit_code: Option<i32>,
    pub stdout: Vec<u8>,
    pub stderr: Vec<u8>,
    pub duration_ms: u64,
}

/// A successful run: numeric exit code and both streams, within the cap.
#[derive(Debug)]
pub struct RunOutput {
    pub exit_code: i32,
    pub stdout: Vec<u8>,
    pub stderr: Vec<u8>,
    pub duration_ms: u64,
}

/// Judges a terminated process against the output cap: either stream over
/// the cap is `OutputTooLarge` (stdout reported first), termination by a
/// signal is `TerminatedBySignal`, and anything else is the output itself.
pub fn bound_output(max_output_bytes: usize, raw: RawProcessOutput) -> (r: Result<
    RunOutput,
    SandboxError,
>)
    ensures
        raw.stdout@.len() > max_output_bytes ==> r == Err::<RunOutput, SandboxError>(
            SandboxError::OutputTooLarge { stream: StreamKind::Stdout, limit: max_output_bytes },
        ),
        raw.stdout@.len() <= max_output_bytes && raw.stderr@.len() > max_output_bytes ==> r
            == Err::<RunOutput, SandboxError>(
            SandboxError::OutputTooLarge { stream: StreamKind::Stderr, limit: max_output_bytes },
        ),
        raw.stdout@.len() <= max_output_bytes && raw.stderr@.len() <= max_output_bytes
            && raw.exit_code is None ==> r == Err::<RunOutput, SandboxError>(
            SandboxError::TerminatedBySignal,
        ),
        raw.stdout@.len() <= max_output_bytes && raw.stderr@.len() <= max_output_bytes
            && raw.exit_code is Some ==> (r matches Ok(out) && out.exit_code
            == raw.exit_code->Some_0 && out.stdout@ == raw.stdout@ && out.stderr@ == raw.stderr@
            && out.duration_ms == raw.duration_ms),
        r is Ok ==> (r->Ok_0).stdout@.len() <= max_output_bytes && (
        r->Ok_0).stderr@.len() <= max_output_bytes,
{
    if raw.stdout.len() > max_output_bytes {
        return Err(SandboxError::OutputTooLarge {
            stream: StreamKind::Stdout,
            limit: max_output_bytes,
        });
    }
    if raw.stderr.len() > max_output_bytes {
        return Err(SandboxError::OutputTooLarge {
            stream: StreamKind::Stderr,
            limit: max_output_bytes,
        });
    }
    match raw.exit_code {
        None => Err(SandboxError::TerminatedBySignal),
        Some(code) => Ok(RunOutput {
            exit_code: code,
            stdout: raw.stdout,
            stderr: raw.stderr,
            duration_ms: raw.duration_ms,
        }),
    }
}

/// The process runner: holds the configuration and admits requests.
#[derive(Debug)]
pub struct SandboxRun {
    config: RunConfig,
}

impl SandboxRun {
    pub closed spec fn spec_config(&self) -> RunConfig {
        self.config
    }

    pub fn new(config: RunConfig) -> (r: SandboxRun)
        ensures
            r.spec_config() == config,
    {
        SandboxRun { config }
    }

    pub fn config(&self) -> (r: &RunConfig)
        ensures
            *r == self.spec_config(),
    {
        &self.config
    }

    /// Admits or rejects a run request.
    ///
    /// In order: a program outside the allow-list is refused (so no process
    /// is ever spawned for it); a working directory is resolved under the
    /// root; the deadline must be positive and at most the configured
    /// maximum, the maximum itself being accepted; every caller-supplied
    /// environment key must be allow-listed. The plan's environment is the
    /// fixed environment followed by the caller's pairs, applied in order.
    #[verifier::loop_isolation(false)]
    pub fn prepare(&self, request: RunRequest) -> (r: Result<RunPlan, SandboxError>)
        ensures
            ({
                let cfg = self.spec_config();
                let timeout = if request.timeout_ms is Some {
                    request.timeout_ms->Some_0
                } else {
                    cfg.spec_default_timeout_ms()
                };
                if !contains_text(cfg.spec_allowed_programs(), request.program@) {
                    r matches Err(e) && invalid_operation_with(
                        e,
                        program_rejected_msg(request.program@),
                    )
                } else if request.working_dir is Some && resolve_fails(
                    (request.working_dir->Some_0)@,
                ) {
                    r matches Err(e) && resolve_matches(
                        cfg.spec_root(),
                        (request.working_dir->Some_0)@,
                        Err(e),
                    )
                } else if timeout == 0 || timeout > cfg.spec_max_timeout_ms() {
                    r matches Err(e) && e is InvalidOperation
                } else if !keys_allowed(request.env@, cfg.spec_env_allowlist()) {
                    r matches Err(e) && e is InvalidOperation
                } else {
                    r matches Ok(plan) && plan.program@ == request.program@ && plan.args@
                        == request.args@ && plan.env@ == cfg.spec_fixed_env() + request.env@
                        && plan.stdin == request.stdin && plan.timeout_ms == timeout
                        && plan.max_output_bytes == cfg.spec_max_output_bytes() && (
                    match request.working_dir {
                        Some(d) => resolve_matches(cfg.spec_root(), d@, Ok(plan.working_dir)),
                        None => plan.working_dir@ == cfg.spec_root(),
                    })
                }
            }),
    {
        if !contains_string(&self.config.allowed_programs, request.program.as_str()) {
            let mut msg = String::from_str("program '");
            msg.append(request.program.as_str());
            msg.append("' is not permitted inside the sandbox");
            return Err(SandboxError::InvalidOperation(msg));
        }
        let working_dir: String;
        match &request.working_dir {
            Some(d) => {
                match resolve(self.config.root.as_str(), d.as_str()) {
                    Ok(p) => {
                        proof {
                            assert(!resolve_fails(d@));
                        }
                        working_dir = p;
                    },
                    Err(e) => {
                        return Err(e);
                    },
                }
            },
            None => {
                working_dir = self.config.root.clone();
            },
        }
        proof {
            if request.working_dir is Some {
                assert(!resolve_fails((request.working_dir->Some_0)@));
            }
        }
        let timeout_ms: u64 = match request.timeout_ms {
            Some(t) => t,
            None => self.config.default_timeout_ms,
        };
        if timeout_ms == 0 {
            return Err(SandboxError::InvalidOperation(String::from_str(
                "timeout must be greater than zero",
            )));
        }
        if timeout_ms > self.config.max_timeout_ms {
            return Err(SandboxError::InvalidOperation(String::from_str(
                "timeout exceeds the configured maximum",
            )));
        }
        let mut env: Vec<(String, String)> = Vec::new();
        let mut i: usize = 0;
        while i < self.config.fixed_env.len()
            invariant
                i <= self.config.fixed_env@.len(),
                env@ == self.config.fixed_env@.subrange(0, i as int),
            decreases self.config.fixed_env@.len() - i,
        {
            let pair = (self.config.fixed_env[i].0.clone(), self.config.fixed_env[i].1.clone());
            env.push(pair);
            proof {
                assert(env@ =~= self.config.fixed_env@.subrange(0, i + 1 as int));
            }
            i = i + 1;
        }
        proof {
            assert(self.config.fixed_env@.subrange(0, self.config.fixed_env@.len() as int)
                =~= self.config.fixed_env@);
        }
        let mut j: usize = 0;
        while j < request.env.len()
            invariant
                j <= request.env@.len(),
                env@ == self.spec_config().spec_fixed_env() + request.env@.subrange(0, j as int),
                forall|k: int| 0 <= k < j ==> contains_text(
                    self.spec_config().spec_env_allowlist(),
                    #[trigger] request.env@[k].0@,
                ),
            decreases request.env@.len() - j,
        {
            if !contains_string(&self.config.env_allowlist, request.env[j].0.as_str()) {
                proof {
                    if keys_allowed(request.env@, self.spec_config().spec_env_allowlist()) {
                        assert(contains_text(
                            self.spec_config().spec_env_allowlist(),
                            request.env@[j as int].0@,
                        ));
                    }
                }
                let mut msg = String::from_str("environment variable '");
                msg.append(request.env[j].0.as_str());
                msg.append("' is not permitted inside the sandbox");
                return Err(SandboxError::InvalidOperation(msg));
            }
            let pair = (request.env[j].0.clone(), request.env[j].1.clone());
            env.push(pair);
            proof {
                assert(env@ =~= self.spec_config().spec_fixed_env() + request.env@.subrange(
                    0,
                    j + 1 as int,
                ));
            }
            j = j + 1;
        }
        proof {
            assert(request.env@.subrange(0, request.env@.len() as int) =~= request.env@);
        }
        Ok(RunPlan {
            program: request.program,
            args: request.args,
            env,
            stdin: request.stdin,
            working_dir,
            timeout_ms,
            max_output_bytes: self.config.max_output_bytes,
        })
    }

    /// Rejects a resolved working directory that turned out not to exist or
    /// not to be a directory.
    pub fn confirm_working_dir(&self, is_existing_dir: bool) -> (r: Result<(), SandboxError>)
        ensures
            r is Ok <==> is_existing_dir,
            !is_existing_dir ==> (r matches Err(e) && e is InvalidOperation),
    {
        if is_existing_dir {
            Ok(())
        } else {
            Err(SandboxError::InvalidOperation(String::from_str(
                "working directory does not exist or is not a directory",
            )))
        }
    }

    /// Judges a terminated process against this runner's output cap.
    pub fn finish(&self, raw: RawProcessOutput) -> (r: Result<RunOutput, SandboxError>)
        ensures
            r is Ok ==> (r->Ok_0).stdout@.len() <= self.spec_config().spec_max_output_bytes() && (
            r->Ok_0).stderr@.len() <= self.spec_config().spec_max_output_bytes(),
            raw.stdout@.len() <= self.spec_config().spec_max_output_bytes()
                && raw.stderr@.len() <= self.spec_config().spec_max_output_bytes()
                && raw.exit_code is Some ==> (r matches Ok(out) && out.exit_code
                == raw.exit_code->Some_0 && out.stdout@ == raw.stdout@ && out.stderr@
                == raw.stderr@ && out.duration_ms == raw.duration_ms),
            raw.stdout@.len() > self.spec_config().spec_max_output_bytes() ==> r == Err::<
                RunOutput,
                SandboxError,
            >(
                SandboxError::OutputTooLarge {
                    stream: StreamKind::Stdout,
                    limit: self.spec_config().spec_max_output_bytes(),
                },
            ),
            raw.stdout@.len() <= self.spec_config().spec_max_output_bytes()
                && raw.stderr@.len() > self.spec_config().spec_max_output_bytes() ==> r == Err::<
                RunOutput,
                SandboxError,
            >(
                SandboxError::OutputTooLarge {
                    stream: StreamKind::Stderr,
                    limit: self.spec_config().spec_max_output_bytes(),
                },
            ),
            raw.stdout@.len() <= self.spec_config().spec_max_output_bytes()
                && raw.stderr@.len() <= self.spec_config().spec_max_output_bytes()
                && raw.exit_code is None ==> r == Err::<RunOutput, SandboxError>(
                SandboxError::TerminatedBySignal,
            ),
    {
        bound_output(self.config.max_output_bytes, raw)
    }
}

} // verus!

