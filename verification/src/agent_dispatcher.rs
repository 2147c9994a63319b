//! The agent dispatcher: a registry of asynchronous agent tasks, the
//! bounded history of finished ones, the typed agent table, and the pure
//! pieces of an agent run — context accounting, prompt assembly and outcome
//! finalisation. The runtime drives each task's worker: it reports the start
//! of execution and the result back through the transition methods here,
//! which alone decide every status change.

use vstd::prelude::*;

use crate::codec::{base64_decode, base64_decoded, base64_encoded};
use crate::errors::{message_spec, SandboxError};
use crate::text::{decimal, render_u64, trimmed, trim_text};
use vstd::utf8::{encode_utf8, valid_utf8};

verus! {

/// The closed set of agent kinds.
#[derive(Debug, Clone, Copy, PartialEq, Eq, Hash, Structural)]
pub enum AgentKind {
    Code,
    Test,
    Design,
    Debug,
    Security,
    Doc,
}

impl AgentKind {
    /// The position of the kind in the canonical order.
    pub open spec fn spec_rank(self) -> u64 {
        match self {
            AgentKind::Code => 0,
            AgentKind::Test => 1,
            AgentKind::Design => 2,
            AgentKind::Debug => 3,
            AgentKind::Security => 4,
            AgentKind::Doc => 5,
        }
    }

    pub fn rank(&self) -> (r: u64)
        ensures
            r == self.spec_rank(),
    {
        match self {
            AgentKind::Code => 0,
            AgentKind::Test => 1,
            AgentKind::Design => 2,
            AgentKind::Debug => 3,
            AgentKind::Security => 4,
            AgentKind::Doc => 5,
        }
    }

    /// The lower-case label of the kind.
    pub open spec fn spec_label(self) -> Seq<char> {
        match self {
            AgentKind::Code => "code"@,
            AgentKind::Test => "test"@,
            AgentKind::Design => "design"@,
            AgentKind::Debug => "debug"@,
            AgentKind::Security => "security"@,
            AgentKind::Doc => "doc"@,
        }
    }

    pub fn label(&self) -> (r: &'static str)
        ensures
            r@ == self.spec_label(),
    {
        match self {
            AgentKind::Code => "code",
            AgentKind::Test => "test",
            AgentKind::Design => "design",
            AgentKind::Debug => "debug",
            AgentKind::Security => "security",
            AgentKind::Doc => "doc",
        }
    }
}

/// Settings of the dispatcher: the chat endpoint, the fallback model, the
/// request deadline, the history bound and the context quota.
#[derive(Debug)]
pub struct AgentDispatcherConfig {
    pub llm_endpoint: String,
    pub default_model: String,
    pub request_timeout_ms: u64,
    pub history_capacity: usize,
    pub max_context_bytes: usize,
    pub api_key: Option<String>,
}

impl AgentDispatcherConfig {
    pub fn new(llm_endpoint: &str, default_model: &str) -> (r: AgentDispatcherConfig)
        ensures
            r.llm_endpoint@ == llm_endpoint@,
            r.default_model@ == default_model@,
            r.request_timeout_ms == 30000,
            r.history_capacity == 128,
            r.max_context_bytes == 524288,
            r.api_key is None,
    {
        AgentDispatcherConfig {
            llm_endpoint: String::from_str(llm_endpoint),
            default_model: String::from_str(default_model),
            request_timeout_ms: 30000,
            history_capacity: 128,
            max_context_bytes: 524288,
            api_key: None,
        }
    }

    pub fn with_timeout(self, request_timeout_ms: u64) -> (r: AgentDispatcherConfig)
        ensures
            r == (AgentDispatcherConfig { request_timeout_ms, ..self }),
    {
        AgentDispatcherConfig { request_timeout_ms, ..self }
    }

    pub fn with_api_key(self, api_key: Option<String>) -> (r: AgentDispatcherConfig)
        ensures
            r == (AgentDispatcherConfig { api_key, ..self }),
    {
        AgentDispatcherConfig { api_key, ..self }
    }

    /// The history holds at least one snapshot.
    pub fn with_history_capacity(self, capacity: usize) -> (r: AgentDispatcherConfig)
        ensures
            r.history_capacity == if capacity >= 1 {
                capacity
            } else {
                1usize
            },
            r.llm_endpoint == self.llm_endpoint && r.default_model == self.default_model
                && r.request_timeout_ms == self.request_timeout_ms && r.max_context_bytes
                == self.max_context_bytes && r.api_key == self.api_key,
    {
        let history_capacity = if capacity >= 1 {
            capacity
        } else {
            1
        };
        AgentDispatcherConfig { history_capacity, ..self }
    }

    /// The context quota is at least one KiB.
    pub fn with_context_limit(self, max_context_bytes: usize) -> (r: AgentDispatcherConfig)
        ensures
            r.max_context_bytes == if max_context_bytes >= 1024 {
                max_context_bytes
            } else {
                1024usize
            },
            r.llm_endpoint == self.llm_endpoint && r.default_model == self.default_model
                && r.request_timeout_ms == self.request_timeout_ms && r.history_capacity
                == self.history_capacity && r.api_key == self.api_key,
    {
        let max_context_bytes = if max_context_bytes >= 1024 {
            max_context_bytes
        } else {
            1024
        };
        AgentDispatcherConfig { max_context_bytes, ..self }
    }
}

/// A context file's payload: inline UTF-8 text, or base64-encoded bytes.
#[derive(Debug)]
pub enum AgentFileContent {
    Utf8(String),
    Base64(String),
}

impl AgentFileContent {
    /// How many bytes the payload stands for, when it is well-formed.
    pub open spec fn spec_bytes_len(&self) -> Option<int> {
        match self {
            AgentFileContent::Utf8(s) => Some(encode_utf8(s@).len() as int),
            AgentFileContent::Base64(b) => match base64_decoded(b@) {
                Some(bytes) => Some(bytes.len() as int),
                None => None,
            },
        }
    }

    /// The byte count of the payload; undecodable base64 is an
    /// `InvalidOperation`.
    pub fn bytes_len(&self) -> (r: Result<usize, SandboxError>)
        ensures
            self.spec_bytes_len() matches Some(n) ==> (r matches Ok(m) && m == n),
            self.spec_bytes_len() is None ==> (r matches Err(e) && e is InvalidOperation),
    {
        broadcast use vstd::slice::group_slice_axioms;

        match self {
            AgentFileContent::Utf8(s) => Ok(s.as_str().as_bytes().len()),
            AgentFileContent::Base64(b) => match base64_decode(b.as_str()) {
                Some(bytes) => Ok(bytes.len()),
                None => Err(SandboxError::InvalidOperation(String::from_str(
                    "invalid base64 context payload",
                ))),
            },
        }
    }
}

/// One file of an agent context.
#[derive(Debug)]
pub struct AgentContextFile {
    pub path: Option<String>,
    pub title: String,
    pub content: AgentFileContent,
}

impl AgentContextFile {
    pub fn new_utf8(path: Option<String>, title: &str, body: &str) -> (r: AgentContextFile)
        ensures
            r.path == path,
            r.title@ == title@,
            r.content matches AgentFileContent::Utf8(b) && b@ == body@,
    {
        AgentContextFile {
            path,
            title: String::from_str(title),
            content: AgentFileContent::Utf8(String::from_str(body)),
        }
    }
}

/// Free-form notes and files an agent task consumes as context.
#[derive(Debug)]
pub struct AgentContext {
    pub notes: Vec<String>,
    pub files: Vec<AgentContextFile>,
}

impl Default for AgentContext {
    fn default() -> (r: AgentContext)
        ensures
            r.notes@ == Seq::<String>::empty(),
            r.files@ == Seq::<AgentContextFile>::empty(),
    {
        AgentContext { notes: Vec::new(), files: Vec::new() }
    }
}

/// The byte count of a note list.
pub open spec fn notes_bytes(notes: Seq<String>) -> int
    decreases notes.len(),
{
    if notes.len() == 0 {
        0
    } else {
        notes_bytes(notes.drop_last()) + encode_utf8(notes.last()@).len()
    }
}

/// The byte count of a file list, when every payload is well-formed.
pub open spec fn files_bytes(files: Seq<AgentContextFile>) -> Option<int>
    decreases files.len(),
{
    if files.len() == 0 {
        Some(0)
    } else {
        match (files_bytes(files.drop_last()), files.last().content.spec_bytes_len()) {
            (Some(a), Some(b)) => Some(a + b),
            _ => None,
        }
    }
}

impl AgentContext {
    /// The total byte count of the context, when it is well-formed.
    pub open spec fn spec_total_bytes(&self) -> Option<int> {
        match files_bytes(self.files@) {
            Some(fb) => Some(notes_bytes(self.notes@) + fb),
            None => None,
        }
    }

    /// Sums the bytes of all notes and files. An undecodable payload or a
    /// sum beyond `usize` is an `InvalidOperation`.
    pub fn total_bytes(&self) -> (r: Result<usize, SandboxError>)
        ensures
            ({
                match self.spec_total_bytes() {
                    Some(total) => if total <= usize::MAX {
                        r matches Ok(n) && n == total
                    } else {
                        r matches Err(e) && e is InvalidOperation
                    },
                    None => r matches Err(e) && e is InvalidOperation,
                }
            }),
    {
        broadcast use vstd::slice::group_slice_axioms;

        let mut total: usize = 0;
        let mut i: usize = 0;
        proof {
            assert(self.notes@.subrange(0, 0) =~= Seq::<String>::empty());
        }
        while i < self.notes.len()
            invariant
                i <= self.notes@.len(),
                total == notes_bytes(self.notes@.subrange(0, i as int)),
            decreases self.notes@.len() - i,
        {
            proof {
                assert(self.notes@.subrange(0, i + 1 as int).drop_last() =~= self.notes@.subrange(
                    0,
                    i as int,
                ));
                assert(self.notes@.subrange(0, i + 1 as int).last() == self.notes@[i as int]);
            }
            let n = self.notes[i].as_str().as_bytes().len();
            total = match total.checked_add(n) {
                Some(t) => t,
                None => {
                    proof {
                        lemma_notes_bytes_grow(self.notes@, i + 1);
                        lemma_files_bytes_nonneg(self.files@);
                    }
                    return Err(SandboxError::InvalidOperation(String::from_str(
                        "context too large",
                    )));
                },
            };
            i = i + 1;
        }
        proof {
            assert(self.notes@.subrange(0, self.notes@.len() as int) =~= self.notes@);
        }
        let mut j: usize = 0;
        let ghost nb = notes_bytes(self.notes@);
        proof {
            assert(self.files@.subrange(0, 0) =~= Seq::<AgentContextFile>::empty());
        }
        while j < self.files.len()
            invariant
                j <= self.files@.len(),
                nb == notes_bytes(self.notes@),
                files_bytes(self.files@.subrange(0, j as int)) matches Some(fb) && total == nb
                    + fb,
            decreases self.files@.len() - j,
        {
            proof {
                assert(self.files@.subrange(0, j + 1 as int).drop_last() =~= self.files@.subrange(
                    0,
                    j as int,
                ));
                assert(self.files@.subrange(0, j + 1 as int).last() == self.files@[j as int]);
            }
            let n = match self.files[j].content.bytes_len() {
                Ok(n) => n,
                Err(e) => {
                    proof {
                        lemma_files_bytes_none(self.files@, j as int);
                    }
                    return Err(e);
                },
            };
            total = match total.checked_add(n) {
                Some(t) => t,
                None => {
                    proof {
                        lemma_files_bytes_grow(self.files@, j as int);
                    }
                    return Err(SandboxError::InvalidOperation(String::from_str(
                        "context too large",
                    )));
                },
            };
            j = j + 1;
        }
        proof {
            assert(self.files@.subrange(0, self.files@.len() as int) =~= self.files@);
        }
        Ok(total)
    }
}

/// Note bytes only grow with the list.
proof fn lemma_notes_bytes_grow(notes: Seq<String>, i: int)
    requires
        0 <= i <= notes.len(),
    ensures
        notes_bytes(notes) >= notes_bytes(notes.subrange(0, i)),
        notes_bytes(notes.subrange(0, i)) >= 0,
    decreases notes.len() - i,
{
    lemma_notes_bytes_nonneg(notes.subrange(0, i));
    if i < notes.len() {
        lemma_notes_bytes_grow(notes, i + 1);
        assert(notes.subrange(0, i + 1).drop_last() =~= notes.subrange(0, i));
    } else {
        assert(notes.subrange(0, i) =~= notes);
    }
}

proof fn lemma_notes_bytes_nonneg(notes: Seq<String>)
    ensures
        notes_bytes(notes) >= 0,
    decreases notes.len(),
{
    if notes.len() > 0 {
        lemma_notes_bytes_nonneg(notes.drop_last());
    }
}

proof fn lemma_files_bytes_nonneg(files: Seq<AgentContextFile>)
    ensures
        files_bytes(files) matches Some(n) ==> n >= 0,
    decreases files.len(),
{
    if files.len() > 0 {
        lemma_files_bytes_nonneg(files.drop_last());
    }
}

/// When a prefix's payload is already undecodable, the whole list's is.
proof fn lemma_files_bytes_none(files: Seq<AgentContextFile>, j: int)
    requires
        0 <= j < files.len(),
        files[j].content.spec_bytes_len() is None,
    ensures
        files_bytes(files) is None,
    decreases files.len(),
{
    if files.len() > 0 {
        if j == files.len() - 1 {
        } else {
            lemma_files_bytes_none(files.drop_last(), j);
        }
    }
}

/// Where a task stands. Terminal states are never left.
#[derive(Debug, Clone, Copy, PartialEq, Eq, Structural)]
pub enum AgentTaskStatus {
    Pending,
    Running,
    Completed,
    Failed,
    Cancelled,
}

impl AgentTaskStatus {
    pub open spec fn spec_is_terminal(self) -> bool {
        self is Completed || self is Failed || self is Cancelled
    }

    pub fn is_terminal(self) -> (r: bool)
        ensures
            r == self.spec_is_terminal(),
    {
        match self {
            AgentTaskStatus::Completed | AgentTaskStatus::Failed | AgentTaskStatus::Cancelled =>
                true,
            _ => false,
        }
    }
}

/// Sampling parameters of a model call, in thousandths, so they carry
/// exactly.
#[derive(Debug, Clone, Copy, PartialEq, Eq, Structural)]
pub struct AgentParameters {
    pub temperature_milli: u32,
    pub max_tokens: Option<u32>,
    pub top_p_milli: u32,
}

impl Default for AgentParameters {
    /// Temperature 0.2, 768 tokens, top-p 0.9.
    fn default() -> (r: AgentParameters)
        ensures
            r == (AgentParameters {
                temperature_milli: 200u32,
                max_tokens: Some(768u32),
                top_p_milli: 900u32,
            }),
    {
        AgentParameters { temperature_milli: 200, max_tokens: Some(768), top_p_milli: 900 }
    }
}

/// One action an agent proposes.
#[derive(Debug)]
pub enum AgentAction {
    Message { title: String, body: String },
    FilePatch { path: String, patch: String },
    FileWrite { path: String, content: AgentFileContent },
    Command { command: String, args: Vec<String> },
}

/// The structured result of a finished agent run.
#[derive(Debug)]
pub struct AgentOutcome {
    pub summary: String,
    pub insights: Vec<String>,
    pub actions: Vec<AgentAction>,
    pub raw_response: String,
}

impl Default for AgentOutcome {
    fn default() -> (r: AgentOutcome)
        ensures
            r.summary@ == Seq::<char>::empty(),
            r.insights@ == Seq::<String>::empty(),
            r.actions@ == Seq::<AgentAction>::empty(),
            r.raw_response@ == Seq::<char>::empty(),
    {
        AgentOutcome {
            summary: String::new(),
            insights: Vec::new(),
            actions: Vec::new(),
            raw_response: String::new(),
        }
    }
}

/// Payload equality of file contents.
pub open spec fn content_like(a: AgentFileContent, b: AgentFileContent) -> bool {
    match (a, b) {
        (AgentFileContent::Utf8(x), AgentFileContent::Utf8(y)) => x@ == y@,
        (AgentFileContent::Base64(x), AgentFileContent::Base64(y)) => x@ == y@,
        _ => false,
    }
}

/// Field-wise equality of actions, down to the text.
pub open spec fn action_like(a: AgentAction, b: AgentAction) -> bool {
    match (a, b) {
        (
            AgentAction::Message { title: t1, body: b1 },
            AgentAction::Message { title: t2, body: b2 },
        ) => t1@ == t2@ && b1@ == b2@,
        (
            AgentAction::FilePatch { path: p1, patch: q1 },
            AgentAction::FilePatch { path: p2, patch: q2 },
        ) => p1@ == p2@ && q1@ == q2@,
        (
            AgentAction::FileWrite { path: p1, content: c1 },
            AgentAction::FileWrite { path: p2, content: c2 },
        ) => p1@ == p2@ && content_like(c1, c2),
        (
            AgentAction::Command { command: c1, args: a1 },
            AgentAction::Command { command: c2, args: a2 },
        ) => c1@ == c2@ && a1.deep_view() == a2.deep_view(),
        _ => false,
    }
}

/// Element-wise [`action_like`] over whole lists.
pub open spec fn actions_like(a: Seq<AgentAction>, b: Seq<AgentAction>) -> bool {
    a.len() == b.len() && forall|i: int| 0 <= i < a.len() ==> action_like(#[trigger] a[i], b[i])
}

/// Field-wise equality of outcomes, down to the text.
pub open spec fn outcome_like(a: AgentOutcome, b: AgentOutcome) -> bool {
    a.summary@ == b.summary@ && a.insights.deep_view() == b.insights.deep_view() && actions_like(
        a.actions@,
        b.actions@,
    ) && a.raw_response@ == b.raw_response@
}

fn copy_content(c: &AgentFileContent) -> (r: AgentFileContent)
    ensures
        content_like(r, *c),
{
    match c {
        AgentFileContent::Utf8(s) => AgentFileContent::Utf8(s.clone()),
        AgentFileContent::Base64(s) => AgentFileContent::Base64(s.clone()),
    }
}

fn copy_action(a: &AgentAction) -> (r: AgentAction)
    ensures
        action_like(r, *a),
{
    match a {
        AgentAction::Message { title, body } => AgentAction::Message {
            title: title.clone(),
            body: body.clone(),
        },
        AgentAction::FilePatch { path, patch } => AgentAction::FilePatch {
            path: path.clone(),
            patch: patch.clone(),
        },
        AgentAction::FileWrite { path, content } => AgentAction::FileWrite {
            path: path.clone(),
            content: copy_content(content),
        },
        AgentAction::Command { command, args } => AgentAction::Command {
            command: command.clone(),
            args: crate::text::copy_strings(args),
        },
    }
}

fn copy_actions(actions: &Vec<AgentAction>) -> (r: Vec<AgentAction>)
    ensures
        actions_like(r@, actions@),
{
    let mut out: Vec<AgentAction> = Vec::new();
    let mut i: usize = 0;
    while i < actions.len()
        invariant
            i <= actions@.len(),
            out@.len() == i,
            forall|j: int| 0 <= j < i ==> action_like(#[trigger] out@[j], actions@[j]),
        decreases actions@.len() - i,
    {
        out.push(copy_action(&actions[i]));
        i = i + 1;
    }
    out
}

fn copy_outcome(o: &AgentOutcome) -> (r: AgentOutcome)
    ensures
        outcome_like(r, *o),
{
    AgentOutcome {
        summary: o.summary.clone(),
        insights: crate::text::copy_strings(&o.insights),
        actions: copy_actions(&o.actions),
        raw_response: o.raw_response.clone(),
    }
}

fn copy_opt_string(s: &Option<String>) -> (r: Option<String>)
    ensures
        r is Some <==> s is Some,
        r matches Some(x) ==> x@ == (s->Some_0)@,
{
    match s {
        Some(x) => Some(x.clone()),
        None => None,
    }
}

/// What an agent's raw reply parses to, when it parses at all: the runtime
/// hands the deserialised fields in.
#[derive(Debug)]
pub struct LlmPayload {
    pub summary: String,
    pub insights: Option<Vec<String>>,
    pub actions: Option<Vec<AgentAction>>,
}

/// Turns a raw model reply and its optional structured parse into the task's
/// outcome: a parsed reply contributes its fields (absent lists default to
/// empty); an unparseable one collapses to the trimmed raw text; a blank
/// summary is replaced by a fixed placeholder.
pub fn finalize_outcome(raw: &str, parsed: Option<LlmPayload>) -> (r: AgentOutcome)
    ensures
        r.raw_response@ == raw@,
        ({
            let summary0: Seq<char> = if parsed is Some {
                (parsed->Some_0).summary@
            } else {
                trimmed(raw@)
            };
            if trimmed(summary0).len() == 0 {
                r.summary@ == "agent completed without summary"@
            } else {
                r.summary@ == summary0
            }
        }),
        parsed matches Some(p) ==> (match p.insights {
            Some(ins) => r.insights@ == ins@,
            None => r.insights@ == Seq::<String>::empty(),
        } && match p.actions {
            Some(acts) => r.actions@ == acts@,
            None => r.actions@ == Seq::<AgentAction>::empty(),
        }),
        parsed is None ==> r.insights@ == Seq::<String>::empty() && r.actions@ == Seq::<
            AgentAction,
        >::empty(),
{
    let raw_response = String::from_str(raw);
    let (summary0, insights, actions): (String, Vec<String>, Vec<AgentAction>) = match parsed {
        Some(p) => {
            let ins = match p.insights {
                Some(v) => v,
                None => Vec::new(),
            };
            let acts = match p.actions {
                Some(v) => v,
                None => Vec::new(),
            };
            (p.summary, ins, acts)
        },
        None => (trim_text(raw), Vec::new(), Vec::new()),
    };
    let summary = if trim_text(summary0.as_str()).as_str().unicode_len() == 0 {
        String::from_str("agent completed without summary")
    } else {
        summary0
    };
    AgentOutcome { summary, insights, actions, raw_response }
}

/// An immutable copy of a task's state at a moment.
#[derive(Debug)]
pub struct AgentTaskSnapshot {
    pub id: u64,
    pub agent: AgentKind,
    pub status: AgentTaskStatus,
    pub objective: String,
    pub model: String,
    pub summary: Option<String>,
    pub error: Option<String>,
    pub created_at: u64,
    pub started_at: Option<u64>,
    pub finished_at: Option<u64>,
    pub outcome: Option<AgentOutcome>,
    pub metadata: Option<String>,
    pub parameters: AgentParameters,
}

/// What `dispatch` returns: the task id and a first snapshot.
#[derive(Debug)]
pub struct AgentTaskSubmission {
    pub id: u64,
    pub status: AgentTaskSnapshot,
}

/// Optional strings that agree in content.
pub open spec fn opt_text_like(a: Option<String>, b: Option<String>) -> bool {
    &&& a is Some <==> b is Some
    &&& a is Some ==> (a->Some_0)@ == (b->Some_0)@
}

/// Optional outcomes that agree in content.
pub open spec fn opt_outcome_like(a: Option<AgentOutcome>, b: Option<AgentOutcome>) -> bool {
    &&& a is Some <==> b is Some
    &&& a is Some ==> outcome_like(a->Some_0, b->Some_0)
}

/// Field-wise equality of snapshots, down to the text.
pub open spec fn snapshot_like(a: AgentTaskSnapshot, b: AgentTaskSnapshot) -> bool {
    &&& a.id == b.id
    &&& a.agent == b.agent
    &&& a.status == b.status
    &&& a.objective@ == b.objective@
    &&& a.model@ == b.model@
    &&& opt_text_like(a.summary, b.summary)
    &&& opt_text_like(a.error, b.error)
    &&& a.created_at == b.created_at
    &&& a.started_at == b.started_at
    &&& a.finished_at == b.finished_at
    &&& opt_outcome_like(a.outcome, b.outcome)
    &&& opt_text_like(a.metadata, b.metadata)
    &&& a.parameters == b.parameters
}

/// Timestamps never run backwards within one snapshot.
pub open spec fn stamps_ordered(s: AgentTaskSnapshot) -> bool {
    &&& s.started_at is Some ==> s.started_at->Some_0 >= s.created_at
    &&& s.finished_at is Some ==> s.finished_at->Some_0 >= s.created_at
    &&& s.finished_at is Some && s.started_at is Some ==> s.finished_at->Some_0
        >= s.started_at->Some_0
}

fn copy_opt_outcome(o: &Option<AgentOutcome>) -> (r: Option<AgentOutcome>)
    ensures
        opt_outcome_like(r, *o),
{
    match o {
        Some(out) => Some(copy_outcome(out)),
        None => None,
    }
}

fn copy_snapshot(s: &AgentTaskSnapshot) -> (r: AgentTaskSnapshot)
    ensures
        snapshot_like(r, *s),
{
    AgentTaskSnapshot {
        id: s.id,
        agent: s.agent,
        status: s.status,
        objective: s.objective.clone(),
        model: s.model.clone(),
        summary: copy_opt_string(&s.summary),
        error: copy_opt_string(&s.error),
        created_at: s.created_at,
        started_at: s.started_at,
        finished_at: s.finished_at,
        outcome: copy_opt_outcome(&s.outcome),
        metadata: copy_opt_string(&s.metadata),
        parameters: s.parameters,
    }
}

/// The fixed description of one registered agent.
#[derive(Debug)]
pub struct AgentMetadata {
    pub agent: AgentKind,
    pub name: String,
    pub description: String,
    pub capabilities: Vec<String>,
    pub default_model: String,
    pub default_parameters: AgentParameters,
}

/// Field-wise equality of agent descriptions, down to the text.
pub open spec fn metadata_like(a: AgentMetadata, b: AgentMetadata) -> bool {
    &&& a.agent == b.agent
    &&& a.name@ == b.name@
    &&& a.description@ == b.description@
    &&& a.capabilities.deep_view() == b.capabilities.deep_view()
    &&& a.default_model@ == b.default_model@
    &&& a.default_parameters == b.default_parameters
}

fn copy_metadata(m: &AgentMetadata) -> (r: AgentMetadata)
    ensures
        metadata_like(r, *m),
{
    AgentMetadata {
        agent: m.agent,
        name: m.name.clone(),
        description: m.description.clone(),
        capabilities: crate::text::copy_strings(&m.capabilities),
        default_model: m.default_model.clone(),
        default_parameters: m.default_parameters,
    }
}

/// Everything a worker needs to run one task.
#[derive(Debug)]
pub struct AgentInvocation {
    pub id: u64,
    pub agent: AgentKind,
    pub objective: String,
    pub context: AgentContext,
    pub model: String,
    pub metadata: Option<String>,
    pub parameters: AgentParameters,
}

/// One message of a chat-completion conversation.
#[derive(Debug)]
pub struct ChatMessage {
    pub role: String,
    pub content: String,
}

/// The numbered note lines of the user prompt.
pub open spec fn notes_block(notes: Seq<String>) -> Seq<char>
    decreases notes.len(),
{
    if notes.len() == 0 {
        Seq::<char>::empty()
    } else {
        notes_block(notes.drop_last()) + decimal(notes.len() as u64) + ". "@ + trimmed(
            notes.last()@,
        ) + "\n"@
    }
}

/// The block the user prompt devotes to one context file: its title, its
/// path when known, and for UTF-8 content a snippet of at most 2048
/// characters; base64 content is only noted.
pub open spec fn file_block(f: AgentContextFile) -> Seq<char> {
    "- "@ + f.title@ + "\n"@ + (if f.path is Some {
        "  Path: "@ + (f.path->Some_0)@ + "\n"@
    } else {
        Seq::<char>::empty()
    }) + (match f.content {
        AgentFileContent::Utf8(c) => "  Content snippet:\n"@ + (if c@.len() > 2048 {
            c@.subrange(0, 2048)
        } else {
            c@
        }) + "\n"@,
        AgentFileContent::Base64(_) => "  Content provided as base64 (not expanded).\n"@,
    })
}

/// The file blocks of the user prompt, in order.
pub open spec fn files_block(files: Seq<AgentContextFile>) -> Seq<char>
    decreases files.len(),
{
    if files.len() == 0 {
        Seq::<char>::empty()
    } else {
        files_block(files.drop_last()) + file_block(files.last())
    }
}

/// The user prompt assembled for an invocation: the trimmed objective, the
/// numbered notes, the file blocks, and the stringified metadata, each
/// section present only when it has content.
pub open spec fn user_prompt_spec(inv: AgentInvocation) -> Seq<char> {
    "Objective:\n"@ + trimmed(inv.objective@) + "\n\n"@ + (if inv.context.notes@.len() > 0 {
        "Context notes:\n"@ + notes_block(inv.context.notes@) + "\n"@
    } else {
        Seq::<char>::empty()
    }) + (if inv.context.files@.len() > 0 {
        "Files:\n"@ + files_block(inv.context.files@) + "\n"@
    } else {
        Seq::<char>::empty()
    }) + (if inv.metadata is Some {
        "Additional metadata:\n"@ + (inv.metadata->Some_0)@ + "\n"@
    } else {
        Seq::<char>::empty()
    })
}

fn build_file_block(f: &AgentContextFile) -> (r: String)
    ensures
        r@ == file_block(*f),
{
    let mut block = String::from_str("- ");
    block.append(f.title.as_str());
    block.append("\n");
    match &f.path {
        Some(p) => {
            block.append("  Path: ");
            block.append(p.as_str());
            block.append("\n");
        },
        None => {},
    }
    match &f.content {
        AgentFileContent::Utf8(c) => {
            block.append("  Content snippet:\n");
            let len = c.as_str().unicode_len();
            if len > 2048 {
                block.append(c.as_str().substring_char(0, 2048));
            } else {
                block.append(c.as_str());
            }
            block.append("\n");
        },
        AgentFileContent::Base64(_) => {
            block.append("  Content provided as base64 (not expanded).\n");
        },
    }
    block
}

/// Assembles the user prompt, verified against [`user_prompt_spec`].
pub fn build_user_prompt(inv: &AgentInvocation) -> (r: String)
    ensures
        r@ == user_prompt_spec(*inv),
{
    let mut prompt = String::from_str("Objective:\n");
    prompt.append(trim_text(inv.objective.as_str()).as_str());
    prompt.append("\n\n");
    if inv.context.notes.len() > 0 {
        prompt.append("Context notes:\n");
        let ghost head = prompt@;
        let mut i: usize = 0;
        proof {
            assert(inv.context.notes@.subrange(0, 0) =~= Seq::<String>::empty());
        }
        while i < inv.context.notes.len()
            invariant
                i <= inv.context.notes@.len(),
                prompt@ == head + notes_block(inv.context.notes@.subrange(0, i as int)),
            decreases inv.context.notes@.len() - i,
        {
            proof {
                assert(inv.context.notes@.subrange(0, i + 1 as int).drop_last()
                    =~= inv.context.notes@.subrange(0, i as int));
                assert(inv.context.notes@.subrange(0, i + 1 as int).last()
                    == inv.context.notes@[i as int]);
            }
            prompt.append(render_u64((i + 1) as u64).as_str());
            prompt.append(". ");
            prompt.append(trim_text(inv.context.notes[i].as_str()).as_str());
            prompt.append("\n");
            i = i + 1;
        }
        proof {
            assert(inv.context.notes@.subrange(0, inv.context.notes@.len() as int)
                =~= inv.context.notes@);
        }
        prompt.append("\n");
    }
    if inv.context.files.len() > 0 {
        prompt.append("Files:\n");
        let ghost head = prompt@;
        let mut i: usize = 0;
        proof {
            assert(inv.context.files@.subrange(0, 0) =~= Seq::<AgentContextFile>::empty());
        }
        while i < inv.context.files.len()
            invariant
                i <= inv.context.files@.len(),
                prompt@ == head + files_block(inv.context.files@.subrange(0, i as int)),
            decreases inv.context.files@.len() - i,
        {
            proof {
                assert(inv.context.files@.subrange(0, i + 1 as int).drop_last()
                    =~= inv.context.files@.subrange(0, i as int));
                assert(inv.context.files@.subrange(0, i + 1 as int).last()
                    == inv.context.files@[i as int]);
            }
            let block = build_file_block(&inv.context.files[i]);
            prompt.append(block.as_str());
            i = i + 1;
        }
        proof {
            assert(inv.context.files@.subrange(0, inv.context.files@.len() as int)
                =~= inv.context.files@);
        }
        prompt.append("\n");
    }
    match &inv.metadata {
        Some(m) => {
            prompt.append("Additional metadata:\n");
            prompt.append(m.as_str());
            prompt.append("\n");
        },
        None => {},
    }
    prompt
}

/// The two-message conversation an agent run sends: the agent's system
/// prompt, then the assembled user prompt.
pub fn build_chat_messages(system_prompt: &str, user_prompt: &str) -> (r: Vec<ChatMessage>)
    ensures
        r@.len() == 2,
        r@[0].role@ == "system"@ && r@[0].content@ == system_prompt@,
        r@[1].role@ == "user"@ && r@[1].content@ == user_prompt@,
{
    let mut out: Vec<ChatMessage> = Vec::new();
    out.push(
        ChatMessage { role: String::from_str("system"), content: String::from_str(system_prompt) },
    );
    out.push(ChatMessage { role: String::from_str("user"), content: String::from_str(user_prompt) });
    out
}

/// The chat-completions URL under an endpoint, trailing slashes dropped.
pub fn chat_url(endpoint: &str) -> (r: String)
    ensures
        r@ == crate::text::trimmed_end_by(endpoint@, |c: char| c == '/') + "/v1/chat/completions"@,
{
    let n = endpoint.unicode_len();
    let mut end: usize = n;
    while end > 0 && endpoint.get_char(end - 1) == '/'
        invariant
            end <= n,
            n == endpoint@.len(),
            forall|j: int| end <= j < n ==> endpoint@[j] == '/',
        decreases end,
    {
        end = end - 1;
    }
    proof {
        crate::text::lemma_trimmed_end_by_index(endpoint@, |c: char| c == '/', end as int);
    }
    let mut url = String::from_str(endpoint.substring_char(0, end));
    url.append("/v1/chat/completions");
    url
}

/// The model an agent run uses: the invocation's, or the agent's default
/// when the invocation names none.
pub fn resolve_model(model: &str, default_model: &str) -> (r: String)
    ensures
        trimmed(model@).len() == 0 ==> r@ == default_model@,
        trimmed(model@).len() > 0 ==> r@ == model@,
{
    if trim_text(model).as_str().unicode_len() == 0 {
        String::from_str(default_model)
    } else {
        String::from_str(model)
    }
}

/// The fixed system prompt of each agent kind.
pub open spec fn system_prompt_spec(kind: AgentKind) -> Seq<char> {
    match kind {
        AgentKind::Code => "You are a senior software engineer. Provide precise code changes. Respond as JSON {\"summary\": string, \"insights\": [string], \"actions\": [ { \"type\": \"file_patch\" | \"file_write\" | \"message\" | \"command\", ... } ] }."@,
        AgentKind::Test => "You are a dedicated test engineer. Produce actionable testing guidance with structured JSON output matching {summary, insights, actions}."@,
        AgentKind::Design => "You evaluate user experience, accessibility, and visual design. Respond with structured JSON including summary, insights, and actions."@,
        AgentKind::Debug => "You act as a debugger focusing on logs, stack traces, and reproduction steps. Return JSON summary, insights, actions."@,
        AgentKind::Security => "You are an application security expert. Produce structured JSON {summary, insights, actions}."@,
        AgentKind::Doc => "You create accurate documentation. Provide JSON with summary, insights, actions."@,
    }
}

pub fn system_prompt_for(kind: AgentKind) -> (r: &'static str)
    ensures
        r@ == system_prompt_spec(kind),
{
    match kind {
        AgentKind::Code => "You are a senior software engineer. Provide precise code changes. Respond as JSON {\"summary\": string, \"insights\": [string], \"actions\": [ { \"type\": \"file_patch\" | \"file_write\" | \"message\" | \"command\", ... } ] }.",
        AgentKind::Test => "You are a dedicated test engineer. Produce actionable testing guidance with structured JSON output matching {summary, insights, actions}.",
        AgentKind::Design => "You evaluate user experience, accessibility, and visual design. Respond with structured JSON including summary, insights, and actions.",
        AgentKind::Debug => "You act as a debugger focusing on logs, stack traces, and reproduction steps. Return JSON summary, insights, actions.",
        AgentKind::Security => "You are an application security expert. Produce structured JSON {summary, insights, actions}.",
        AgentKind::Doc => "You create accurate documentation. Provide JSON with summary, insights, actions.",
    }
}

fn capability_list(a: &str, b: &str, c: &str) -> (r: Vec<String>)
    ensures
        r.deep_view() == (seq![a@, b@, c@]),
{
    let mut out: Vec<String> = Vec::new();
    out.push(String::from_str(a));
    out.push(String::from_str(b));
    out.push(String::from_str(c));
    proof {
        assert(out.deep_view() =~= seq![a@, b@, c@]);
    }
    out
}

/// The six built-in agents, one per kind, in canonical order, all with the
/// default parameters and the given default model.
pub fn default_agents(default_model: &str) -> (r: Vec<AgentMetadata>)
    ensures
        r@.len() == 6,
        forall|i: int| 0 <= i < 6 ==> (#[trigger] r@[i].agent).spec_rank() == i,
        forall|i: int| 0 <= i < 6 ==> (#[trigger] r@[i]).default_model@ == default_model@,
        forall|i: int|
            0 <= i < 6 ==> (#[trigger] r@[i]).default_parameters == (AgentParameters {
                temperature_milli: 200u32,
                max_tokens: Some(768u32),
                top_p_milli: 900u32,
            }),
        r@[0].name@ == "Code Synthesis Agent"@,
        r@[1].name@ == "Test Engineering Agent"@,
        r@[2].name@ == "Design Review Agent"@,
        r@[3].name@ == "Diagnostics Agent"@,
        r@[4].name@ == "Security Analyst Agent"@,
        r@[5].name@ == "Documentation Agent"@,
        r@[0].capabilities.deep_view() == (seq!["code_generation"@, "refactoring"@, "analysis"@]),
        r@[1].capabilities.deep_view() == (seq!["test_design"@, "coverage_analysis"@, "ci_recommendation"@]),
        r@[2].capabilities.deep_view() == (seq!["ux_feedback"@, "component_layout"@, "theme_guidance"@]),
        r@[3].capabilities.deep_view() == (seq!["log_analysis"@, "failure_triage"@, "fix_recommendation"@]),
        r@[4].capabilities.deep_view() == (seq!["threat_analysis"@, "dependency_review"@, "mitigation_plan"@]),
        r@[5].capabilities.deep_view() == (seq!["api_docs"@, "changelog"@, "guides"@]),
{
    let params = AgentParameters { temperature_milli: 200, max_tokens: Some(768), top_p_milli: 900 };
    let mut out: Vec<AgentMetadata> = Vec::new();
    out.push(AgentMetadata {
        agent: AgentKind::Code,
        name: String::from_str("Code Synthesis Agent"),
        description: String::from_str(
            "Generates and refactors application code with production-ready quality.",
        ),
        capabilities: capability_list("code_generation", "refactoring", "analysis"),
        default_model: String::from_str(default_model),
        default_parameters: params,
    });
    out.push(AgentMetadata {
        agent: AgentKind::Test,
        name: String::from_str("Test Engineering Agent"),
        description: String::from_str(
            "Designs and evaluates automated tests ensuring high coverage and reliability.",
        ),
        capabilities: capability_list("test_design", "coverage_analysis", "ci_recommendation"),
        default_model: String::from_str(default_model),
        default_parameters: params,
    });
    out.push(AgentMetadata {
        agent: AgentKind::Design,
        name: String::from_str("Design Review Agent"),
        description: String::from_str(
            "Creates UI/UX recommendations and design artifacts for the studio interface.",
        ),
        capabilities: capability_list("ux_feedback", "component_layout", "theme_guidance"),
        default_model: String::from_str(default_model),
        default_parameters: params,
    });
    out.push(AgentMetadata {
        agent: AgentKind::Debug,
        name: String::from_str("Diagnostics Agent"),
        description: String::from_str(
            "Performs root-cause analysis for defects and runtime failures.",
        ),
        capabilities: capability_list("log_analysis", "failure_triage", "fix_recommendation"),
        default_model: String::from_str(default_model),
        default_parameters: params,
    });
    out.push(AgentMetadata {
        agent: AgentKind::Security,
        name: String::from_str("Security Analyst Agent"),
        description: String::from_str(
            "Audits code for security vulnerabilities and recommends mitigations.",
        ),
        capabilities: capability_list("threat_analysis", "dependency_review", "mitigation_plan"),
        default_model: String::from_str(default_model),
        default_parameters: params,
    });
    out.push(AgentMetadata {
        agent: AgentKind::Doc,
        name: String::from_str("Documentation Agent"),
        description: String::from_str(
            "Produces technical documentation, changelogs, and onboarding guides.",
        ),
        capabilities: capability_list("api_docs", "changelog", "guides"),
        default_model: String::from_str(default_model),
        default_parameters: params,
    });
    out
}

/// What holds of every live record: timestamps ordered, a pending task has
/// not started, and exactly the terminal ones carry a finish time.
pub open spec fn active_record_ok(t: ActiveTask) -> bool {
    &&& stamps_ordered(t.snap)
    &&& (t.snap.status is Pending ==> t.snap.started_at is None)
    &&& (t.snap.status.spec_is_terminal() <==> t.snap.finished_at is Some)
}

/// How the transport describes one context file: inline base64 content, or
/// a workspace path whose bytes the runtime reads, with an optional title,
/// encoding and per-file byte budget.
#[derive(Debug)]
pub struct AgentContextFileParams {
    pub path: Option<String>,
    pub title: Option<String>,
    pub encoding: Option<String>,
    pub max_bytes: Option<usize>,
    pub content_base64: Option<String>,
}

/// The per-file byte budget, 64 KiB unless given.
pub open spec fn context_limit_of(p: AgentContextFileParams) -> int {
    if p.max_bytes is Some {
        p.max_bytes->Some_0 as int
    } else {
        65536
    }
}

/// The file's display title: the given title, else the path, else a fixed
/// fallback.
pub open spec fn context_title_of(p: AgentContextFileParams) -> Seq<char> {
    if p.title is Some {
        (p.title->Some_0)@
    } else if p.path is Some {
        (p.path->Some_0)@
    } else {
        "context"@
    }
}

/// Whether an optional encoding label names the given one (absent means
/// UTF-8).
pub open spec fn encoding_is(enc: Option<String>, label: Seq<char>) -> bool {
    enc is Some && crate::text::ascii_case_eq((enc->Some_0)@, label)
}

/// Builds one agent-context file from the transport's description. Inline
/// base64 content is decoded; a by-path file's bytes are read by the runtime
/// and handed in. Content over the per-file budget is truncated; content
/// meant as UTF-8 that does not decode falls back to base64. The second
/// component notes a truncation or fallback for the agent's benefit.
pub fn resolve_context_file(params: AgentContextFileParams, file_bytes: Option<Vec<u8>>) -> (r:
    Result<(AgentContextFile, Option<String>), SandboxError>)
    requires
        params.content_base64 is None && params.path is Some ==> file_bytes is Some,
    ensures
        ({
            let limit = context_limit_of(params);
            let title = context_title_of(params);
            match params.content_base64 {
                Some(b64) => match base64_decoded(b64@) {
                    None => r matches Err(e) && e is InvalidOperation,
                    Some(bytes) => {
                        let cut = if bytes.len() > limit {
                            bytes.subrange(0, limit)
                        } else {
                            bytes
                        };
                        let was_cut = bytes.len() > limit;
                        r matches Ok((f, note)) && {
                            &&& f.path == params.path
                            &&& f.title@ == title
                            &&& if !encoding_is(params.encoding, "utf-8"@) && params.encoding is Some {
                                (f.content matches AgentFileContent::Base64(e) && e@
                                    == base64_encoded(cut)) && (note is Some <==> was_cut)
                            } else if valid_utf8(cut) {
                                (f.content matches AgentFileContent::Utf8(t) && encode_utf8(t@)
                                    == cut) && (note is Some <==> was_cut)
                            } else {
                                (f.content matches AgentFileContent::Base64(e) && e@
                                    == base64_encoded(cut)) && note is Some
                            }
                        }
                    },
                },
                None => match params.path {
                    None => r matches Err(e) && e is InvalidOperation,
                    Some(_) => {
                        let bytes = (file_bytes->Some_0)@;
                        let cut = if bytes.len() > limit {
                            bytes.subrange(0, limit)
                        } else {
                            bytes
                        };
                        let was_cut = bytes.len() > limit;
                        r matches Ok((f, note)) && {
                            &&& f.path == params.path
                            &&& f.title@ == title
                            &&& if encoding_is(params.encoding, "base64"@) {
                                (f.content matches AgentFileContent::Base64(e) && e@
                                    == base64_encoded(cut)) && (note is Some <==> was_cut)
                            } else if valid_utf8(cut) {
                                (f.content matches AgentFileContent::Utf8(t) && encode_utf8(t@)
                                    == cut) && (note is Some <==> was_cut)
                            } else {
                                (f.content matches AgentFileContent::Base64(e) && e@
                                    == base64_encoded(cut)) && note is Some
                            }
                        }
                    },
                },
            }
        }),
{
    let limit: usize = match params.max_bytes {
        Some(m) => m,
        None => 65536,
    };
    let title: String = match &params.title {
        Some(t) => t.clone(),
        None => match &params.path {
            Some(p) => p.clone(),
            None => String::from_str("context"),
        },
    };
    let has_inline = match &params.content_base64 {
        Some(_) => true,
        None => false,
    };
    if has_inline {
        let b64: &String = match &params.content_base64 {
            Some(b) => b,
            None => unreached(),
        };
        let mut bytes = match crate::codec::base64_decode(b64.as_str()) {
            Some(v) => v,
            None => {
                return Err(SandboxError::InvalidOperation(String::from_str(
                    "invalid base64 inline content",
                )));
            },
        };
        let mut note: Option<String> = None;
        if bytes.len() > limit {
            bytes.truncate(limit);
            let mut n = String::from_str("Inline content '");
            n.append(title.as_str());
            n.append("' truncated to ");
            n.append(render_u64(limit as u64).as_str());
            n.append(" bytes");
            note = Some(n);
        }
        let wants_utf8 = match &params.encoding {
            Some(enc) => crate::text::eq_ignore_ascii_case_str(enc.as_str(), "utf-8"),
            None => true,
        };
        let content = if wants_utf8 {
            match crate::codec::utf8_decode(bytes) {
                Ok(text) => AgentFileContent::Utf8(text),
                Err(raw) => {
                    let encoded = crate::codec::base64_encode(raw.as_slice());
                    let detail_tail = "' was not valid UTF-8; provided as base64";
                    note = Some(combine_note(note, title.as_str(), "Inline content '", detail_tail));
                    AgentFileContent::Base64(encoded)
                },
            }
        } else {
            AgentFileContent::Base64(crate::codec::base64_encode(bytes.as_slice()))
        };
        return Ok((AgentContextFile { path: params.path, title, content }, note));
    }
    let path: String = match params.path {
        Some(p) => p,
        None => {
            return Err(SandboxError::InvalidOperation(String::from_str(
                "context file path is required when no inline content is provided",
            )));
        },
    };
    let mut data: Vec<u8> = match file_bytes {
        Some(v) => v,
        None => unreached(),
    };
    let mut note: Option<String> = None;
    if data.len() > limit {
        data.truncate(limit);
        let mut n = String::from_str("File '");
        n.append(path.as_str());
        n.append("' truncated to ");
        n.append(render_u64(limit as u64).as_str());
        n.append(" bytes for agent context");
        note = Some(n);
    }
    let wants_base64 = match &params.encoding {
        Some(enc) => crate::text::eq_ignore_ascii_case_str(enc.as_str(), "base64"),
        None => false,
    };
    let content = if wants_base64 {
        AgentFileContent::Base64(crate::codec::base64_encode(data.as_slice()))
    } else {
        match crate::codec::utf8_decode(data) {
            Ok(text) => AgentFileContent::Utf8(text),
            Err(raw) => {
                let encoded = crate::codec::base64_encode(raw.as_slice());
                let detail_tail = "' contained non UTF-8 data; provided as base64";
                note = Some(combine_note(note, path.as_str(), "File '", detail_tail));
                AgentFileContent::Base64(encoded)
            },
        }
    };
    Ok((AgentContextFile { path: Some(path), title, content }, note))
}

/// Extends an existing note with a fallback detail, or starts one.
fn combine_note(existing: Option<String>, subject: &str, head: &str, tail: &str) -> (r: String) {
    let mut detail = String::from_str(head);
    detail.append(subject);
    detail.append(tail);
    match existing {
        Some(mut n) => {
            n.append("; ");
            n.append(detail.as_str());
            n
        },
        None => detail,
    }
}

/// A request to dispatch one agent task.
#[derive(Debug)]
pub struct AgentDispatchRequest {
    pub agent: AgentKind,
    pub objective: String,
    pub context: AgentContext,
    pub model: Option<String>,
    pub metadata: Option<String>,
    pub parameters: Option<AgentParameters>,
}

/// The live record of one task: its authoritative snapshot and whether a
/// cancel was requested.
#[derive(Debug)]
pub struct ActiveTask {
    pub snap: AgentTaskSnapshot,
    pub cancel_requested: bool,
}

/// How the worker's result lands on a task: a cancel that already happened
/// is kept, success completes, a cancelled run cancels, anything else fails.
pub open spec fn finalize_status(
    current: AgentTaskStatus,
    ok: bool,
    cancelled_err: bool,
) -> AgentTaskStatus {
    if current is Cancelled {
        AgentTaskStatus::Cancelled
    } else if ok {
        AgentTaskStatus::Completed
    } else if cancelled_err {
        AgentTaskStatus::Cancelled
    } else {
        AgentTaskStatus::Failed
    }
}

/// A cancel that arrived before the worker's own resolution is never
/// overridden: whatever the worker reports, the task stays cancelled.
pub proof fn lemma_cancelled_is_final(ok: bool, cancelled_err: bool)
    ensures
        finalize_status(AgentTaskStatus::Cancelled, ok, cancelled_err) is Cancelled,
{
}

/// Whether some live record carries `id`.
pub open spec fn active_has(tasks: Seq<ActiveTask>, id: u64) -> bool {
    exists|i: int| 0 <= i < tasks.len() && tasks[i].snap.id == id
}

/// Whether some history snapshot carries `id`.
pub open spec fn history_has(hist: Seq<AgentTaskSnapshot>, id: u64) -> bool {
    exists|j: int| 0 <= j < hist.len() && hist[j].id == id
}

/// The later of a proposed timestamp and a floor already recorded.
fn stamp_at_least(now_ms: u64, floor: u64) -> (r: u64)
    ensures
        r >= now_ms && r >= floor && (r == now_ms || r == floor),
{
    if now_ms >= floor {
        now_ms
    } else {
        floor
    }
}

/// The agent dispatcher: the typed agent table, the registry of live tasks,
/// and the bounded history of finished ones.
#[derive(Debug)]
pub struct AgentDispatcher {
    config: AgentDispatcherConfig,
    agents: Vec<AgentMetadata>,
    next_id: u64,
    active: Vec<ActiveTask>,
    history: Vec<AgentTaskSnapshot>,
}

impl AgentDispatcher {
    pub closed spec fn spec_config(&self) -> AgentDispatcherConfig {
        self.config
    }

    pub closed spec fn spec_agents(&self) -> Seq<AgentMetadata> {
        self.agents@
    }

    pub closed spec fn spec_next_id(&self) -> u64 {
        self.next_id
    }

    pub closed spec fn spec_active(&self) -> Seq<ActiveTask> {
        self.active@
    }

    pub closed spec fn spec_history(&self) -> Seq<AgentTaskSnapshot> {
        self.history@
    }

    /// Whether an agent of `kind` is registered.
    pub open spec fn spec_has_agent(&self, kind: AgentKind) -> bool {
        exists|i: int| 0 <= i < self.spec_agents().len() && self.spec_agents()[i].agent == kind
    }

    /// The dispatcher's invariant: task ids are allocated once and never
    /// reused, live and finished tasks never share an id, every history
    /// snapshot is terminal with a finish time, timestamps never run
    /// backwards, the history respects its bound, and no kind is registered
    /// twice.
    pub open spec fn wf(&self) -> bool {
        &&& forall|i: int, j: int|
            0 <= i < j < self.spec_active().len() ==> self.spec_active()[i].snap.id
                != self.spec_active()[j].snap.id
        &&& forall|i: int, j: int|
            0 <= i < j < self.spec_history().len() ==> self.spec_history()[i].id
                != self.spec_history()[j].id
        &&& forall|i: int, j: int|
            0 <= i < self.spec_active().len() && 0 <= j < self.spec_history().len() ==> (
            #[trigger] self.spec_active()[i]).snap.id != (#[trigger] self.spec_history()[j]).id
        &&& forall|i: int|
            0 <= i < self.spec_active().len() ==> (#[trigger] self.spec_active()[i]).snap.id
                < self.spec_next_id()
        &&& forall|j: int|
            0 <= j < self.spec_history().len() ==> (#[trigger] self.spec_history()[j]).id
                < self.spec_next_id()
        &&& forall|i: int|
            0 <= i < self.spec_active().len() ==> active_record_ok(#[trigger] self.spec_active()[i])
        &&& forall|j: int|
            0 <= j < self.spec_history().len() ==> {
                let s = #[trigger] self.spec_history()[j];
                s.status.spec_is_terminal() && s.finished_at is Some && stamps_ordered(s)
            }
        &&& self.spec_history().len() <= self.spec_config().history_capacity
        &&& forall|i: int, j: int|
            0 <= i < j < self.spec_agents().len() ==> self.spec_agents()[i].agent
                != self.spec_agents()[j].agent
    }

    /// Builds a dispatcher over an explicit agent table. An empty table or
    /// two agents of one kind are refused.
    pub fn with_agents(config: AgentDispatcherConfig, agents: Vec<AgentMetadata>) -> (r: Result<
        AgentDispatcher,
        SandboxError,
    >)
        ensures
            r is Ok <==> agents@.len() > 0 && (forall|i: int, j: int|
                0 <= i < j < agents@.len() ==> agents@[i].agent != agents@[j].agent),
            r matches Ok(d) ==> d.wf() && d.spec_config() == config && d.spec_agents() == agents@
                && d.spec_active() == Seq::<ActiveTask>::empty() && d.spec_history() == Seq::<
                AgentTaskSnapshot,
            >::empty(),
            r matches Err(e) ==> e is InvalidOperation,
    {
        if agents.len() == 0 {
            return Err(SandboxError::InvalidOperation(String::from_str(
                "agent dispatcher requires at least one agent",
            )));
        }
        let mut i: usize = 1;
        while i < agents.len()
            invariant
                1 <= i,
                i <= agents@.len() || agents@.len() == 0,
                forall|a: int, b: int|
                    0 <= a < b < i && b < agents@.len() ==> agents@[a].agent != agents@[b].agent,
            decreases agents@.len() - i,
        {
            let mut j: usize = 0;
            while j < i
                invariant
                    j <= i < agents@.len(),
                    forall|a: int| 0 <= a < j ==> agents@[a].agent != agents@[i as int].agent,
                decreases i - j,
            {
                if agents[j].agent.rank() == agents[i].agent.rank() {
                    proof {
                        lemma_rank_injective(agents@[j as int].agent, agents@[i as int].agent);
                    }
                    return Err(SandboxError::InvalidOperation(String::from_str(
                        "agents of one kind may be registered only once",
                    )));
                }
                j = j + 1;
            }
            i = i + 1;
        }
        let d = AgentDispatcher {
            config,
            agents,
            next_id: 0,
            active: Vec::new(),
            history: Vec::new(),
        };
        proof {
            assert(d.spec_active() =~= Seq::<ActiveTask>::empty());
            assert(d.spec_history() =~= Seq::<AgentTaskSnapshot>::empty());
        }
        Ok(d)
    }

    /// Builds a dispatcher over the six built-in agents.
    pub fn new(config: AgentDispatcherConfig) -> (r: Result<AgentDispatcher, SandboxError>)
        ensures
            r matches Ok(d) && d.wf() && d.spec_config() == config && d.spec_active() == Seq::<
                ActiveTask,
            >::empty() && d.spec_history() == Seq::<AgentTaskSnapshot>::empty() && d.spec_agents().len() == 6,
    {
        let agents = default_agents(config.default_model.as_str());
        proof {
            assert forall|i: int, j: int|
                0 <= i < j < agents@.len() implies agents@[i].agent != agents@[j].agent by {
                lemma_rank_injective(agents@[i].agent, agents@[j].agent);
            }
        }
        match AgentDispatcher::with_agents(config, agents) {
            Ok(d) => Ok(d),
            Err(_) => unreached(),
        }
    }

    pub fn config(&self) -> (r: &AgentDispatcherConfig)
        ensures
            *r == self.spec_config(),
    {
        &self.config
    }

    /// Finds the live record of `id`.
    fn find_task(&self, id: u64) -> (r: Option<usize>)
        ensures
            r matches Some(i) ==> i < self.spec_active().len() && self.spec_active()[
                i as int
            ].snap.id == id,
            r is None ==> !active_has(self.spec_active(), id),
    {
        let mut idx: usize = 0;
        let n = self.active.len();
        while idx < n
            invariant
                idx <= n,
                n == self.spec_active().len(),
                forall|j: int| 0 <= j < idx ==> self.spec_active()[j].snap.id != id,
            decreases n - idx,
        {
            if self.active[idx].snap.id == id {
                return Some(idx);
            }
            idx = idx + 1;
        }
        None
    }

    /// Finds the registered agent of `kind`.
    fn find_agent(&self, kind: AgentKind) -> (r: Option<usize>)
        ensures
            r matches Some(i) ==> i < self.spec_agents().len() && self.spec_agents()[
                i as int
            ].agent == kind,
            r is None ==> !self.spec_has_agent(kind),
    {
        let mut idx: usize = 0;
        let n = self.agents.len();
        while idx < n
            invariant
                idx <= n,
                n == self.spec_agents().len(),
                forall|j: int| 0 <= j < idx ==> self.spec_agents()[j].agent != kind,
            decreases n - idx,
        {
            if self.agents[idx].agent.rank() == kind.rank() {
                proof {
                    lemma_rank_injective(self.spec_agents()[idx as int].agent, kind);
                }
                return Some(idx);
            }
            idx = idx + 1;
            proof {
                lemma_rank_injective(self.spec_agents()[idx - 1].agent, kind);
            }
        }
        None
    }

    /// Accepts a task: validates the objective, the agent kind and the
    /// context quota, registers a pending record under a fresh id, and
    /// returns the submission. The runtime then drives the task's worker
    /// through [`AgentDispatcher::worker_started`] and
    /// [`AgentDispatcher::worker_finished`].
    pub fn dispatch(&mut self, request: AgentDispatchRequest, now_ms: u64) -> (r: Result<
        AgentTaskSubmission,
        SandboxError,
    >)
        requires
            old(self).wf(),
        ensures
            final(self).wf(),
            final(self).spec_config() == old(self).spec_config(),
            final(self).spec_agents() == old(self).spec_agents(),
            final(self).spec_history() == old(self).spec_history(),
            r is Err ==> *final(self) == *old(self),
            ({
                let objective_blank = trimmed(request.objective@).len() == 0;
                let context_bad = match request.context.spec_total_bytes() {
                    Some(total) => total > usize::MAX,
                    None => true,
                };
                if objective_blank {
                    r matches Err(e) && e is InvalidOperation
                } else if !old(self).spec_has_agent(request.agent) {
                    r matches Err(e) && (e matches SandboxError::AgentUnavailable(k) && k@
                        == request.agent.spec_label())
                } else if context_bad {
                    r matches Err(e) && e is InvalidOperation
                } else if request.context.spec_total_bytes()->Some_0 > old(
                    self,
                ).spec_config().max_context_bytes {
                    r matches Err(e) && (e matches SandboxError::ContextTooLarge {
                        provided,
                        limit,
                    } && provided == request.context.spec_total_bytes()->Some_0 && limit == old(
                        self,
                    ).spec_config().max_context_bytes)
                } else if old(self).spec_next_id() == u64::MAX {
                    r matches Err(e) && e is InvalidOperation
                } else {
                    r matches Ok(sub) && {
                        let rec = final(self).spec_active().last();
                        &&& final(self).spec_active().drop_last() == old(self).spec_active()
                        &&& final(self).spec_next_id() == old(self).spec_next_id() + 1
                        &&& rec.snap.id == old(self).spec_next_id()
                        &&& rec.snap.agent == request.agent
                        &&& rec.snap.status is Pending
                        &&& rec.snap.objective == request.objective
                        &&& (match request.model {
                            Some(m) => rec.snap.model == m,
                            None => rec.snap.model@ == old(
                                self,
                            ).spec_config().default_model@,
                        })
                        &&& rec.snap.summary is None && rec.snap.error is None
                        &&& rec.snap.created_at == now_ms
                        &&& rec.snap.started_at is None && rec.snap.finished_at is None
                        &&& rec.snap.outcome is None
                        &&& rec.snap.metadata == request.metadata
                        &&& rec.snap.parameters == (match request.parameters {
                            Some(p) => p,
                            None => AgentParameters {
                                temperature_milli: 200u32,
                                max_tokens: Some(768u32),
                                top_p_milli: 900u32,
                            },
                        })
                        &&& !rec.cancel_requested
                        &&& sub.id == rec.snap.id
                        &&& snapshot_like(sub.status, rec.snap)
                    }
                }
            }),
    {
        if trim_text(request.objective.as_str()).as_str().unicode_len() == 0 {
            return Err(SandboxError::InvalidOperation(String::from_str(
                "objective must not be empty",
            )));
        }
        if self.find_agent(request.agent).is_none() {
            return Err(SandboxError::AgentUnavailable(String::from_str(request.agent.label())));
        }
        let context_size = request.context.total_bytes()?;
        if context_size > self.config.max_context_bytes {
            return Err(SandboxError::ContextTooLarge {
                provided: context_size,
                limit: self.config.max_context_bytes,
            });
        }
        if self.next_id == u64::MAX {
            return Err(SandboxError::InvalidOperation(String::from_str(
                "task identifiers exhausted",
            )));
        }
        let id = self.next_id;
        self.next_id = self.next_id + 1;
        let model: String = match request.model {
            Some(m) => m,
            None => self.config.default_model.clone(),
        };
        let parameters: AgentParameters = match request.parameters {
            Some(p) => p,
            None => AgentParameters {
                temperature_milli: 200,
                max_tokens: Some(768),
                top_p_milli: 900,
            },
        };
        let snap = AgentTaskSnapshot {
            id,
            agent: request.agent,
            status: AgentTaskStatus::Pending,
            objective: request.objective,
            model,
            summary: None,
            error: None,
            created_at: now_ms,
            started_at: None,
            finished_at: None,
            outcome: None,
            metadata: request.metadata,
            parameters,
        };
        let status = copy_snapshot(&snap);
        self.active.push(ActiveTask { snap, cancel_requested: false });
        proof {
            assert(self.spec_active().drop_last() =~= old(self).spec_active());
        }
        Ok(AgentTaskSubmission { id, status })
    }

    /// Marks a pending task running at `now_ms`; any other state is left as
    /// it stands.
    pub fn worker_started(&mut self, id: u64, now_ms: u64)
        requires
            old(self).wf(),
        ensures
            final(self).wf(),
            final(self).spec_config() == old(self).spec_config(),
            final(self).spec_agents() == old(self).spec_agents(),
            final(self).spec_history() == old(self).spec_history(),
            final(self).spec_next_id() == old(self).spec_next_id(),
            !active_has(old(self).spec_active(), id) ==> *final(self) == *old(self),
            active_has(old(self).spec_active(), id) ==> exists|i: int|
                {
                    &&& 0 <= i < old(self).spec_active().len()
                    &&& (#[trigger] old(self).spec_active()[i]).snap.id == id
                    &&& {
                        let was = old(self).spec_active()[i];
                        if was.snap.status is Pending {
                            final(self).spec_active() == old(self).spec_active().update(
                                i,
                                ActiveTask {
                                    snap: AgentTaskSnapshot {
                                        status: AgentTaskStatus::Running,
                                        started_at: Some(
                                            if now_ms >= was.snap.created_at {
                                                now_ms
                                            } else {
                                                was.snap.created_at
                                            },
                                        ),
                                        ..was.snap
                                    },
                                    ..was
                                },
                            )
                        } else {
                            *final(self) == *old(self)
                        }
                    }
                },
    {
        let idx = match self.find_task(id) {
            Some(i) => i,
            None => {
                return ;
            },
        };
        let is_pending = match self.active[idx].snap.status {
            AgentTaskStatus::Pending => true,
            _ => false,
        };
        if !is_pending {
            return ;
        }
        let mut rec = self.active.remove(idx);
        let started = stamp_at_least(now_ms, rec.snap.created_at);
        rec.snap.status = AgentTaskStatus::Running;
        rec.snap.started_at = Some(started);
        let ghost rec_g = rec;
        self.active.insert(idx, rec);
        proof {
            assert(self.spec_active() =~= old(self).spec_active().update(idx as int, rec_g));
            lemma_active_update_wf(*old(self), *self, idx as int, rec_g);
        }
    }
}

impl AgentDispatcher {
    /// Lands the worker's result on the task: a task already cancelled stays
    /// cancelled, success completes with the outcome, a cancelled run
    /// cancels, any other error fails with the error's message. The record
    /// leaves the live registry and its final snapshot enters the history,
    /// evicting the oldest snapshot when the bound is reached.
    pub fn worker_finished(
        &mut self,
        id: u64,
        result: Result<AgentOutcome, SandboxError>,
        now_ms: u64,
    ) -> (r: Option<AgentTaskSnapshot>)
        requires
            old(self).wf(),
        ensures
            final(self).wf(),
            final(self).spec_config() == old(self).spec_config(),
            final(self).spec_agents() == old(self).spec_agents(),
            final(self).spec_next_id() == old(self).spec_next_id(),
            !active_has(old(self).spec_active(), id) ==> r is None && *final(self) == *old(self),
            active_has(old(self).spec_active(), id) ==> (r matches Some(out) && exists|i: int|
                {
                    &&& 0 <= i < old(self).spec_active().len()
                    &&& (#[trigger] old(self).spec_active()[i]).snap.id == id
                    &&& exists|stored: AgentTaskSnapshot|
                        {
                            let was = old(self).spec_active()[i].snap;
                            let ok = result is Ok;
                            let cerr = result is Err && (result->Err_0) is Cancelled;
                            &&& #[trigger] snapshot_like(out, stored)
                            &&& stored.id == was.id
                            &&& stored.agent == was.agent
                            &&& stored.status == finalize_status(was.status, ok, cerr)
                            &&& stored.status.spec_is_terminal()
                            &&& stored.objective == was.objective
                            &&& stored.model == was.model
                            &&& stored.metadata == was.metadata
                            &&& stored.parameters == was.parameters
                            &&& stored.created_at == was.created_at
                            &&& stored.started_at == was.started_at
                            &&& stored.finished_at is Some
                            &&& stamps_ordered(stored)
                            &&& (was.status is Cancelled ==> stored.finished_at == was.finished_at
                                && stored.outcome == was.outcome && stored.summary == was.summary
                                && stored.error == was.error)
                            &&& (!(was.status is Cancelled) && ok ==> stored.outcome == Some(
                                result->Ok_0,
                            ) && stored.summary == Some((result->Ok_0).summary) && stored.error
                                == was.error)
                            &&& (!(was.status is Cancelled) && cerr ==> stored.outcome
                                == was.outcome && stored.summary == was.summary && stored.error
                                == was.error)
                            &&& (!(was.status is Cancelled) && !ok && !cerr ==> stored.outcome
                                == was.outcome && stored.summary == was.summary && (
                            stored.error matches Some(m) && m@ == message_spec(result->Err_0)))
                            &&& final(self).spec_active() == old(self).spec_active().remove(i)
                            &&& final(self).spec_history() == (if old(
                                self,
                            ).spec_history().len() < old(self).spec_config().history_capacity {
                                old(self).spec_history().push(stored)
                            } else {
                                old(self).spec_history().push(stored).drop_first()
                            })
                        }
                }),
    {
        let idx = match self.find_task(id) {
            Some(i) => i,
            None => {
                return None;
            },
        };
        let mut rec = self.active.remove(idx);
        let floor: u64 = match rec.snap.started_at {
            Some(t) => stamp_at_least(t, rec.snap.created_at),
            None => rec.snap.created_at,
        };
        let was_cancelled = match rec.snap.status {
            AgentTaskStatus::Cancelled => true,
            _ => false,
        };
        if was_cancelled {
            if rec.snap.finished_at.is_none() {
                rec.snap.finished_at = Some(stamp_at_least(now_ms, floor));
            }
        } else {
            match result {
                Ok(outcome) => {
                    rec.snap.status = AgentTaskStatus::Completed;
                    rec.snap.finished_at = Some(stamp_at_least(now_ms, floor));
                    rec.snap.summary = Some(outcome.summary.clone());
                    rec.snap.outcome = Some(outcome);
                },
                Err(e) => {
                    match e {
                        SandboxError::Cancelled => {
                            rec.snap.status = AgentTaskStatus::Cancelled;
                            rec.snap.finished_at = Some(stamp_at_least(now_ms, floor));
                        },
                        other => {
                            rec.snap.status = AgentTaskStatus::Failed;
                            rec.snap.finished_at = Some(stamp_at_least(now_ms, floor));
                            rec.snap.error = Some(other.message());
                        },
                    }
                },
            }
        }
        let out = copy_snapshot(&rec.snap);
        let ghost stored_g = rec.snap;
        let ghost mid_active = self.spec_active();
        self.history.push(rec.snap);
        if self.history.len() > self.config.history_capacity {
            self.history.remove(0);
        }
        proof {
            assert(mid_active =~= old(self).spec_active().remove(idx as int));
            lemma_finish_wf(*old(self), *self, idx as int, stored_g);
        }
        Some(out)
    }

    /// Cancels a task. A terminal task is returned as it stands; any other
    /// is forced to `Cancelled` with its finish time set now. The cancel
    /// request is recorded either way, and the final observable status of a
    /// task cancelled before its natural resolution is `Cancelled`.
    pub fn cancel(&mut self, id: u64, now_ms: u64) -> (r: Result<AgentTaskSnapshot, SandboxError>)
        requires
            old(self).wf(),
        ensures
            final(self).wf(),
            final(self).spec_config() == old(self).spec_config(),
            final(self).spec_agents() == old(self).spec_agents(),
            final(self).spec_history() == old(self).spec_history(),
            final(self).spec_next_id() == old(self).spec_next_id(),
            !active_has(old(self).spec_active(), id) ==> r == Err::<
                AgentTaskSnapshot,
                SandboxError,
            >(SandboxError::AgentTaskNotFound(id)) && *final(self) == *old(self),
            active_has(old(self).spec_active(), id) ==> (r matches Ok(out) && exists|i: int|
                {
                    &&& 0 <= i < old(self).spec_active().len()
                    &&& (#[trigger] old(self).spec_active()[i]).snap.id == id
                    &&& {
                        let was = old(self).spec_active()[i];
                        let rec = final(self).spec_active()[i];
                        &&& final(self).spec_active() == old(self).spec_active().update(i, rec)
                        &&& rec.cancel_requested
                        &&& (was.snap.status.spec_is_terminal() ==> rec.snap == was.snap)
                        &&& (!was.snap.status.spec_is_terminal() ==> rec.snap.status is Cancelled
                            && rec.snap.finished_at is Some && rec.snap.id == was.snap.id
                            && rec.snap.created_at == was.snap.created_at && rec.snap.started_at
                            == was.snap.started_at && rec.snap.objective == was.snap.objective
                            && rec.snap.model == was.snap.model && rec.snap.outcome
                            == was.snap.outcome && rec.snap.agent == was.snap.agent)
                        &&& snapshot_like(out, rec.snap)
                    }
                }),
    {
        let idx = match self.find_task(id) {
            Some(i) => i,
            None => {
                return Err(SandboxError::AgentTaskNotFound(id));
            },
        };
        let mut rec = self.active.remove(idx);
        rec.cancel_requested = true;
        if !rec.snap.status.is_terminal() {
            let floor: u64 = match rec.snap.started_at {
                Some(t) => stamp_at_least(t, rec.snap.created_at),
                None => rec.snap.created_at,
            };
            rec.snap.status = AgentTaskStatus::Cancelled;
            rec.snap.finished_at = Some(stamp_at_least(now_ms, floor));
        }
        let out = copy_snapshot(&rec.snap);
        let ghost rec_g = rec;
        self.active.insert(idx, rec);
        proof {
            assert(self.spec_active() =~= old(self).spec_active().update(idx as int, rec_g));
            lemma_active_update_wf(*old(self), *self, idx as int, rec_g);
        }
        Ok(out)
    }

    /// The current snapshot of a task: a live one first, else the newest
    /// history entry of that id.
    #[verifier::loop_isolation(false)]
    pub fn status(&self, id: u64) -> (r: Option<AgentTaskSnapshot>)
        ensures
            r is Some <==> active_has(self.spec_active(), id) || history_has(
                self.spec_history(),
                id,
            ),
            (r is Some && active_has(self.spec_active(), id)) ==> exists|i: int|
                0 <= i < self.spec_active().len() && (#[trigger] self.spec_active()[i]).snap.id
                    == id && snapshot_like(r->Some_0, self.spec_active()[i].snap),
            (r is Some && !active_has(self.spec_active(), id)) ==> exists|j: int|
                0 <= j < self.spec_history().len() && (#[trigger] self.spec_history()[j]).id == id
                    && snapshot_like(r->Some_0, self.spec_history()[j]),
    {
        match self.find_task(id) {
            Some(i) => {
                proof {
                    assert(active_has(self.spec_active(), id));
                }
                Some(copy_snapshot(&self.active[i].snap))
            },
            None => {
                let n = self.history.len();
                let mut back: usize = 0;
                while back < n
                    invariant
                        back <= n,
                        n == self.spec_history().len(),
                        forall|j: int| n - back <= j < n ==> self.spec_history()[j].id != id,
                    decreases n - back,
                {
                    let j = n - 1 - back;
                    if self.history[j].id == id {
                        return Some(copy_snapshot(&self.history[j]));
                    }
                    back = back + 1;
                }
                None
            },
        }
    }

    /// Up to `limit` of the most recent terminal snapshots, newest first.
    pub fn history(&self, limit: usize) -> (r: Vec<AgentTaskSnapshot>)
        ensures
            r@.len() == if (limit as int) <= self.spec_history().len() {
                limit as int
            } else {
                self.spec_history().len() as int
            },
            forall|i: int|
                0 <= i < r@.len() ==> snapshot_like(
                    #[trigger] r@[i],
                    self.spec_history()[self.spec_history().len() - 1 - i],
                ),
            self.wf() ==> forall|i: int|
                0 <= i < r@.len() ==> (#[trigger] r@[i]).status.spec_is_terminal()
                    && r@[i].finished_at is Some && stamps_ordered(r@[i]),
    {
        let n = self.history.len();
        let mut out: Vec<AgentTaskSnapshot> = Vec::new();
        let mut k: usize = 0;
        while k < limit && k < n
            invariant
                n == self.spec_history().len(),
                k <= limit,
                k <= n,
                k < limit || k == limit,
                out@.len() == k,
                forall|i: int|
                    0 <= i < k ==> snapshot_like(
                        #[trigger] out@[i],
                        self.spec_history()[self.spec_history().len() - 1 - i],
                    ),
            decreases n - k,
        {
            out.push(copy_snapshot(&self.history[n - 1 - k]));
            k = k + 1;
        }
        proof {
            if self.wf() {
                assert forall|i: int|
                    0 <= i < out@.len() implies (#[trigger] out@[i]).status.spec_is_terminal()
                    && out@[i].finished_at is Some && stamps_ordered(out@[i]) by {
                    let s = self.spec_history()[self.spec_history().len() - 1 - i];
                    assert(s.status.spec_is_terminal() && s.finished_at is Some && stamps_ordered(
                        s,
                    ));
                }
            }
        }
        out
    }

    /// The registered agents, ordered by kind: each entry is a copy of the
    /// registered agent of its kind, and every registered kind appears.
    #[verifier::loop_isolation(false)]
    pub fn list_agents(&self) -> (r: Vec<AgentMetadata>)
        ensures
            forall|i: int, j: int|
                0 <= i < j < r@.len() ==> r@[i].agent.spec_rank() < r@[j].agent.spec_rank(),
            forall|i: int| 0 <= i < r@.len() ==> self.spec_has_agent((#[trigger] r@[i]).agent),
            self.wf() ==> forall|j: int|
                0 <= j < self.spec_agents().len() ==> listing_has_kind(
                    r@,
                    (#[trigger] self.spec_agents()[j]).agent,
                ),
            self.wf() ==> forall|i: int, j: int|
                0 <= i < r@.len() && 0 <= j < self.spec_agents().len() && (#[trigger] r@[i]).agent
                    == (#[trigger] self.spec_agents()[j]).agent ==> metadata_like(
                    r@[i],
                    self.spec_agents()[j],
                ),
    {
        let mut out: Vec<AgentMetadata> = Vec::new();
        let mut rank: u64 = 0;
        while rank < 6
            invariant
                rank <= 6,
                forall|i: int| 0 <= i < out@.len() ==> (#[trigger] out@[i]).agent.spec_rank() < rank,
                forall|i: int, j: int|
                    0 <= i < j < out@.len() ==> out@[i].agent.spec_rank()
                        < out@[j].agent.spec_rank(),
                forall|i: int| 0 <= i < out@.len() ==> self.spec_has_agent((#[trigger] out@[i]).agent),
                self.wf() ==> forall|j: int|
                    0 <= j < self.spec_agents().len() && (
                    #[trigger] self.spec_agents()[j]).agent.spec_rank() < rank ==> listing_has_kind(
                        out@,
                        self.spec_agents()[j].agent,
                    ),
                self.wf() ==> forall|i: int, j: int|
                    0 <= i < out@.len() && 0 <= j < self.spec_agents().len() && (
                    #[trigger] out@[i]).agent == (#[trigger] self.spec_agents()[j]).agent
                        ==> metadata_like(out@[i], self.spec_agents()[j]),
            decreases 6 - rank,
        {
            let kind = kind_of_rank(rank);
            let ghost pre = out@;
            match self.find_agent(kind) {
                Some(idx) => {
                    out.push(copy_metadata(&self.agents[idx]));
                    proof {
                        assert(out@.drop_last() =~= pre);
                        assert(metadata_like(out@.last(), self.spec_agents()[idx as int]));
                        assert forall|k2: AgentKind| listing_has_kind(pre, k2) implies
                            listing_has_kind(out@, k2) by {
                            lemma_listing_push(pre, out@.last(), k2);
                        }
                        assert(listing_has_kind(out@, kind)) by {
                            assert(out@[out@.len() - 1].agent == kind);
                        }
                        if self.wf() {
                            assert forall|i: int, j: int|
                                0 <= i < out@.len() && 0 <= j < self.spec_agents().len() && (
                                #[trigger] out@[i]).agent == (
                                #[trigger] self.spec_agents()[j]).agent implies metadata_like(
                                out@[i],
                                self.spec_agents()[j],
                            ) by {
                                if i == out@.len() - 1 {
                                    if j != idx as int {
                                        assert(self.spec_agents()[j].agent != self.spec_agents()[
                                            idx as int
                                        ].agent);
                                    }
                                } else {
                                    assert(out@[i] == pre[i]);
                                }
                            }
                        }
                    }
                },
                None => {
                    proof {
                        if self.wf() {
                            assert forall|j: int|
                                0 <= j < self.spec_agents().len() && (
                                #[trigger] self.spec_agents()[j]).agent.spec_rank() < rank
                                    + 1 implies listing_has_kind(out@, self.spec_agents()[j].agent) by {
                                if self.spec_agents()[j].agent.spec_rank() == rank {
                                    lemma_rank_injective(self.spec_agents()[j].agent, kind);
                                    assert(self.spec_has_agent(kind));
                                    assert(false);
                                }
                            }
                        }
                    }
                },
            }
            rank = rank + 1;
        }
        proof {
            assert forall|j: int|
                0 <= j < self.spec_agents().len() implies (
            #[trigger] self.spec_agents()[j]).agent.spec_rank() < 6 by {
                lemma_rank_bound(self.spec_agents()[j].agent);
            }
        }
        out
    }
}

/// Whether some entry of a listing carries `kind`.
pub open spec fn listing_has_kind(s: Seq<AgentMetadata>, kind: AgentKind) -> bool {
    exists|i: int| 0 <= i < s.len() && s[i].agent == kind
}

/// A kind present in a listing is still present after a push.
proof fn lemma_listing_push(s: Seq<AgentMetadata>, x: AgentMetadata, kind: AgentKind)
    requires
        listing_has_kind(s, kind),
    ensures
        listing_has_kind(s.push(x), kind),
{
    let i = choose|i: int| 0 <= i < s.len() && s[i].agent == kind;
    assert(s.push(x)[i].agent == kind);
}

/// Every kind sits within the canonical order.
proof fn lemma_rank_bound(k: AgentKind)
    ensures
        k.spec_rank() < 6,
{
}

/// The kind at a given canonical position.
fn kind_of_rank(rank: u64) -> (r: AgentKind)
    requires
        rank < 6,
    ensures
        r.spec_rank() == rank,
{
    if rank == 0 {
        AgentKind::Code
    } else if rank == 1 {
        AgentKind::Test
    } else if rank == 2 {
        AgentKind::Design
    } else if rank == 3 {
        AgentKind::Debug
    } else if rank == 4 {
        AgentKind::Security
    } else {
        AgentKind::Doc
    }
}

/// Finishing a task keeps the dispatcher well-formed: the record leaves the
/// registry and its terminal snapshot enters the bounded history.
proof fn lemma_finish_wf(
    pre: AgentDispatcher,
    post: AgentDispatcher,
    i: int,
    stored: AgentTaskSnapshot,
)
    requires
        pre.wf(),
        0 <= i < pre.spec_active().len(),
        stored.id == pre.spec_active()[i].snap.id,
        stored.status.spec_is_terminal(),
        stored.finished_at is Some,
        stamps_ordered(stored),
        post.spec_active() == pre.spec_active().remove(i),
        post.spec_history() == (if pre.spec_history().len()
            < pre.spec_config().history_capacity {
            pre.spec_history().push(stored)
        } else {
            pre.spec_history().push(stored).drop_first()
        }),
        post.spec_next_id() == pre.spec_next_id(),
        post.spec_agents() == pre.spec_agents(),
        post.spec_config() == pre.spec_config(),
    ensures
        post.wf(),
{
    let pa = pre.spec_active();
    let ph = pre.spec_history();
    let qa = post.spec_active();
    let qh = post.spec_history();
    assert(stored.id < pre.spec_next_id());
    assert forall|a: int| 0 <= a < qa.len() implies qa[a] == pa[if a < i {
        a
    } else {
        a + 1
    }] by {}
    assert forall|a: int| 0 <= a < qh.len() implies qh[a] == (if ph.len()
        < pre.spec_config().history_capacity {
        ph.push(stored)[a]
    } else {
        ph.push(stored)[a + 1]
    }) by {}
    assert forall|a: int, b: int| 0 <= a < b < qh.len() implies qh[a].id != qh[b].id by {
        let off: int = if ph.len() < pre.spec_config().history_capacity {
            0
        } else {
            1
        };
        let pa2 = a + off;
        let pb2 = b + off;
        if pb2 < ph.len() {
            assert(ph[pa2].id != ph[pb2].id);
        } else {
            assert(qh[b] == stored);
            assert(ph[pa2].id != stored.id) by {
                assert(pre.spec_active()[i].snap.id != ph[pa2].id);
            }
        }
    }
    assert forall|a: int, b: int|
        0 <= a < qa.len() && 0 <= b < qh.len() implies (#[trigger] qa[a]).snap.id != (
    #[trigger] qh[b]).id by {
        let ai: int = if a < i {
            a
        } else {
            a + 1
        };
        let off: int = if ph.len() < pre.spec_config().history_capacity {
            0
        } else {
            1
        };
        if b + off < ph.len() {
            assert(pa[ai].snap.id != ph[b + off].id);
        } else {
            assert(qh[b] == stored);
            if ai < i {
                assert(pa[ai].snap.id != pa[i].snap.id);
            } else {
                assert(pa[i].snap.id != pa[ai].snap.id);
            }
        }
    }
    assert forall|b: int| 0 <= b < qh.len() implies {
        let s = #[trigger] qh[b];
        s.status.spec_is_terminal() && s.finished_at is Some && stamps_ordered(s) && s.id
            < post.spec_next_id()
    } by {
        let off: int = if ph.len() < pre.spec_config().history_capacity {
            0
        } else {
            1
        };
        if b + off < ph.len() {
            assert(qh[b] == ph[b + off]);
            assert(ph[b + off].status.spec_is_terminal() && ph[b + off].finished_at is Some
                && stamps_ordered(ph[b + off]) && ph[b + off].id < pre.spec_next_id());
        } else {
            assert(qh[b] == stored);
        }
    }
    assert forall|a: int, b: int| 0 <= a < b < qa.len() implies qa[a].snap.id != qa[b].snap.id by {
        let ai: int = if a < i {
            a
        } else {
            a + 1
        };
        let bi: int = if b < i {
            b
        } else {
            b + 1
        };
        assert(pa[ai].snap.id != pa[bi].snap.id);
    }
    assert forall|a: int| 0 <= a < qa.len() implies (#[trigger] qa[a]).snap.id
        < post.spec_next_id() && active_record_ok(qa[a]) by {
        let ai: int = if a < i {
            a
        } else {
            a + 1
        };
        assert(pa[ai].snap.id < pre.spec_next_id() && active_record_ok(pa[ai]));
    }
}

/// Every snapshot the history ever serves is terminal, carries a finish
/// time, and its timestamps never run backwards.
pub proof fn lemma_history_snapshots_terminal(d: AgentDispatcher, j: int)
    requires
        d.wf(),
        0 <= j < d.spec_history().len(),
    ensures
        d.spec_history()[j].status.spec_is_terminal(),
        d.spec_history()[j].finished_at is Some,
        stamps_ordered(d.spec_history()[j]),
{
}

/// Replacing one live record with one of the same id and ordered timestamps
/// keeps the dispatcher well-formed.
proof fn lemma_active_update_wf(pre: AgentDispatcher, post: AgentDispatcher, i: int, rec: ActiveTask)
    requires
        pre.wf(),
        0 <= i < pre.spec_active().len(),
        post.spec_active() == pre.spec_active().update(i, rec),
        rec.snap.id == pre.spec_active()[i].snap.id,
        active_record_ok(rec),
        post.spec_history() == pre.spec_history(),
        post.spec_next_id() == pre.spec_next_id(),
        post.spec_agents() == pre.spec_agents(),
        post.spec_config() == pre.spec_config(),
    ensures
        post.wf(),
{
    assert forall|a: int, b: int|
        0 <= a < b < post.spec_active().len() implies post.spec_active()[a].snap.id
        != post.spec_active()[b].snap.id by {
        assert(pre.spec_active()[a].snap.id != pre.spec_active()[b].snap.id);
    }
    assert forall|a: int, b: int|
        0 <= a < post.spec_active().len() && 0 <= b < post.spec_history().len() implies (
    #[trigger] post.spec_active()[a]).snap.id != (#[trigger] post.spec_history()[b]).id by {
        assert((pre.spec_active()[a]).snap.id != (pre.spec_history()[b]).id);
    }
    assert forall|a: int|
        0 <= a < post.spec_active().len() implies (#[trigger] post.spec_active()[a]).snap.id
        < post.spec_next_id() by {
        assert((pre.spec_active()[a]).snap.id < pre.spec_next_id());
    }
    assert forall|a: int|
        0 <= a < post.spec_active().len() implies active_record_ok(
        #[trigger] post.spec_active()[a],
    ) by {
        if a != i {
            assert(active_record_ok(pre.spec_active()[a]));
        }
    }
}

/// Distinct kinds have distinct ranks.
proof fn lemma_rank_injective(a: AgentKind, b: AgentKind)
    ensures
        a.spec_rank() == b.spec_rank() ==> a == b,
{
}

/// File bytes only grow with the list.
proof fn lemma_files_bytes_grow(files: Seq<AgentContextFile>, j: int)
    requires
        0 <= j < files.len(),
        files_bytes(files.subrange(0, j)) is Some,
        files[j].content.spec_bytes_len() is Some,
    ensures
        files_bytes(files) is None || (files_bytes(files) matches Some(n) && n >= files_bytes(
            files.subrange(0, j),
        )->Some_0 + files[j].content.spec_bytes_len()->Some_0),
    decreases files.len() - j,
{
    if j == files.len() - 1 {
        assert(files.subrange(0, j) =~= files.drop_last());
    } else {
        assert(files.subrange(0, j + 1).drop_last() =~= files.subrange(0, j));
        if files[j + 1].content.spec_bytes_len() is Some {
            lemma_files_bytes_grow(files, j + 1);
            if files_bytes(files) matches Some(n) {
                lemma_files_bytes_nonneg(files.subrange(0, j + 1));
            }
        } else {
            lemma_files_bytes_none(files, j + 1);
        }
    }
}

} // verus!
