use cyberdev_sandbox::agent_dispatcher::{
    build_chat_messages, build_user_prompt, chat_url, default_agents, finalize_outcome,
    resolve_context_file, resolve_model, system_prompt_for, AgentContext, AgentContextFile,
    AgentContextFileParams, AgentDispatchRequest, AgentDispatcher, AgentDispatcherConfig,
    AgentFileContent, AgentInvocation, AgentKind, AgentOutcome, AgentParameters,
    AgentTaskStatus, LlmPayload,
};
use cyberdev_sandbox::errors::SandboxError;

fn dispatcher() -> AgentDispatcher {
    AgentDispatcher::new(AgentDispatcherConfig::new("http://localhost", "test")).unwrap()
}

fn request(objective: &str) -> AgentDispatchRequest {
    AgentDispatchRequest {
        agent: AgentKind::Code,
        objective: objective.to_string(),
        context: AgentContext::default(),
        model: None,
        metadata: None,
        parameters: None,
    }
}

fn ok_outcome(summary: &str) -> AgentOutcome {
    AgentOutcome {
        summary: summary.to_string(),
        insights: vec!["stub insight".to_string()],
        actions: Vec::new(),
        raw_response: "{}".to_string(),
    }
}

#[test]
fn dispatch_executes_agent() {
    let mut d = dispatcher();
    let submission = d.dispatch(request("build module"), 1_000).unwrap();
    assert_eq!(submission.status.status, AgentTaskStatus::Pending);
    d.worker_started(submission.id, 1_010);
    let snap = d
        .worker_finished(submission.id, Ok(ok_outcome("handled: build module")), 1_030)
        .unwrap();
    assert_eq!(snap.status, AgentTaskStatus::Completed);
    let status = d.status(submission.id).unwrap();
    assert_eq!(status.status, AgentTaskStatus::Completed);
    assert_eq!(status.outcome.unwrap().summary, "handled: build module");
}

#[test]
fn cancel_marks_task() {
    let mut d = dispatcher();
    let submission = d.dispatch(request("long task"), 1_000).unwrap();
    let snapshot = d.cancel(submission.id, 1_005).unwrap();
    assert_eq!(snapshot.status, AgentTaskStatus::Cancelled);
}

#[test]
fn cancel_before_reply_wins() {
    let mut d = dispatcher();
    let submission = d.dispatch(request("long task"), 1_000).unwrap();
    d.worker_started(submission.id, 1_001);
    let snapshot = d.cancel(submission.id, 1_002).unwrap();
    assert_eq!(snapshot.status, AgentTaskStatus::Cancelled);
    // the worker's own resolution arrives later and must not override it
    let final_snap = d
        .worker_finished(submission.id, Ok(ok_outcome("late success")), 1_050)
        .unwrap();
    assert_eq!(final_snap.status, AgentTaskStatus::Cancelled);
    let seen = d.status(submission.id).unwrap();
    assert_eq!(seen.status, AgentTaskStatus::Cancelled);
    let history = d.history(10);
    assert_eq!(history.len(), 1);
    assert_eq!(history[0].id, submission.id);
    assert_eq!(history[0].status, AgentTaskStatus::Cancelled);
}

#[test]
fn history_captures_completed_tasks() {
    let mut d = dispatcher();
    for idx in 0..3 {
        let submission = d.dispatch(request(&format!("task-{idx}")), 1_000 + idx).unwrap();
        d.worker_started(submission.id, 1_100 + idx);
        d.worker_finished(submission.id, Ok(ok_outcome("done")), 1_200 + idx);
    }
    let history = d.history(5);
    assert!(history.len() >= 3);
    assert!(history.iter().all(|entry| entry.status.is_terminal()));
}

#[test]
fn history_is_clamped_and_newest_first() {
    let config = AgentDispatcherConfig::new("http://localhost", "test").with_history_capacity(2);
    let mut d = AgentDispatcher::new(config).unwrap();
    let mut ids = Vec::new();
    for idx in 0..3 {
        let submission = d.dispatch(request(&format!("task-{idx}")), 1_000 + idx).unwrap();
        d.worker_started(submission.id, 1_100 + idx);
        d.worker_finished(submission.id, Ok(ok_outcome("done")), 1_200 + idx);
        ids.push(submission.id);
    }
    let history = d.history(10);
    assert_eq!(history.len(), 2);
    assert_eq!(history[0].id, ids[2]);
    assert_eq!(history[1].id, ids[1]);
    assert_eq!(d.history(1).len(), 1);
    assert_eq!(d.history(0).len(), 0);
}

#[test]
fn task_timestamps_are_ordered() {
    let mut d = dispatcher();
    let submission = d.dispatch(request("timing"), 2_000).unwrap();
    // a clock that runs backwards cannot push the stamps backwards
    d.worker_started(submission.id, 1_500);
    let snap = d.worker_finished(submission.id, Ok(ok_outcome("done")), 900).unwrap();
    let created = snap.created_at;
    let started = snap.started_at.unwrap();
    let finished = snap.finished_at.unwrap();
    assert!(created <= started && started <= finished);
    assert_eq!(created, 2_000);
}

#[test]
fn failed_runs_keep_the_error_message() {
    let mut d = dispatcher();
    let submission = d.dispatch(request("doomed"), 1_000).unwrap();
    d.worker_started(submission.id, 1_001);
    let snap = d
        .worker_finished(
            submission.id,
            Err(SandboxError::Network("connection refused".to_string())),
            1_002,
        )
        .unwrap();
    assert_eq!(snap.status, AgentTaskStatus::Failed);
    assert_eq!(snap.error.unwrap(), "network request failed: connection refused");
}

#[test]
fn cancelled_error_cancels() {
    let mut d = dispatcher();
    let submission = d.dispatch(request("cut short"), 1_000).unwrap();
    d.worker_started(submission.id, 1_001);
    let snap = d.worker_finished(submission.id, Err(SandboxError::Cancelled), 1_002).unwrap();
    assert_eq!(snap.status, AgentTaskStatus::Cancelled);
}

#[test]
fn dispatch_validations() {
    let mut d = dispatcher();
    assert!(matches!(
        d.dispatch(request("   "), 1_000),
        Err(SandboxError::InvalidOperation(_))
    ));
    let err = d.cancel(12345, 1_000).unwrap_err();
    assert_eq!(err, SandboxError::AgentTaskNotFound(12345));
    assert!(d.status(777).is_none());
}

#[test]
fn unknown_agent_kind_is_unavailable() {
    let config = AgentDispatcherConfig::new("http://localhost", "test");
    let agents = default_agents("test");
    let only_code: Vec<_> = agents.into_iter().filter(|a| a.agent == AgentKind::Code).collect();
    let mut d = AgentDispatcher::with_agents(config, only_code).unwrap();
    let mut req = request("objective");
    req.agent = AgentKind::Doc;
    match d.dispatch(req, 1_000) {
        Err(SandboxError::AgentUnavailable(kind)) => assert_eq!(kind, "doc"),
        other => panic!("unexpected: {:?}", other),
    }
}

#[test]
fn context_too_large_is_rejected() {
    let config = AgentDispatcherConfig::new("http://localhost", "test").with_context_limit(1024);
    let mut d = AgentDispatcher::new(config).unwrap();
    let mut req = request("objective");
    req.context.notes.push("x".repeat(2048));
    match d.dispatch(req, 1_000) {
        Err(SandboxError::ContextTooLarge { provided, limit }) => {
            assert_eq!(provided, 2048);
            assert_eq!(limit, 1024);
        }
        other => panic!("unexpected: {:?}", other),
    }
}

#[test]
fn context_bytes_are_counted_decoded() {
    let mut ctx = AgentContext::default();
    ctx.notes.push("hello".to_string());
    ctx.files.push(AgentContextFile::new_utf8(None, "t", "world!"));
    // "aGVsbG8=" is the standard-alphabet rendering of five bytes
    ctx.files.push(AgentContextFile {
        path: None,
        title: "b".to_string(),
        content: AgentFileContent::Base64("aGVsbG8=".to_string()),
    });
    assert_eq!(ctx.total_bytes().unwrap(), 5 + 6 + 5);
    ctx.files.push(AgentContextFile {
        path: None,
        title: "bad".to_string(),
        content: AgentFileContent::Base64("!!not base64!!".to_string()),
    });
    assert!(matches!(ctx.total_bytes(), Err(SandboxError::InvalidOperation(_))));
}

#[test]
fn prompt_is_assembled_exactly() {
    let invocation = AgentInvocation {
        id: 1,
        agent: AgentKind::Code,
        objective: "  build module  ".to_string(),
        context: AgentContext {
            notes: vec![" first note ".to_string(), "second".to_string()],
            files: vec![
                AgentContextFile {
                    path: Some("src/main.rs".to_string()),
                    title: "main".to_string(),
                    content: AgentFileContent::Utf8("fn main() {}".to_string()),
                },
                AgentContextFile {
                    path: None,
                    title: "blob".to_string(),
                    content: AgentFileContent::Base64("aGk=".to_string()),
                },
            ],
        },
        model: "test".to_string(),
        metadata: Some("{\"priority\":\"high\"}".to_string()),
        parameters: AgentParameters::default(),
    };
    let prompt = build_user_prompt(&invocation);
    let expected = "Objective:\nbuild module\n\n\
        Context notes:\n1. first note\n2. second\n\n\
        Files:\n- main\n  Path: src/main.rs\n  Content snippet:\nfn main() {}\n\
        - blob\n  Content provided as base64 (not expanded).\n\n\
        Additional metadata:\n{\"priority\":\"high\"}\n";
    assert_eq!(prompt, expected);
}

#[test]
fn long_content_is_snipped_to_2048_chars() {
    let invocation = AgentInvocation {
        id: 1,
        agent: AgentKind::Code,
        objective: "o".to_string(),
        context: AgentContext {
            notes: Vec::new(),
            files: vec![AgentContextFile {
                path: None,
                title: "big".to_string(),
                content: AgentFileContent::Utf8("y".repeat(3000)),
            }],
        },
        model: "m".to_string(),
        metadata: None,
        parameters: AgentParameters::default(),
    };
    let prompt = build_user_prompt(&invocation);
    let snippet: String = "y".repeat(2048);
    assert!(prompt.contains(&snippet));
    assert!(!prompt.contains(&"y".repeat(2049)));
}

#[test]
fn chat_pieces_are_exact() {
    assert_eq!(chat_url("http://localhost:8080///"), "http://localhost:8080/v1/chat/completions");
    assert_eq!(chat_url("http://host"), "http://host/v1/chat/completions");
    let msgs = build_chat_messages("sys", "user prompt");
    assert_eq!(msgs.len(), 2);
    assert_eq!(msgs[0].role, "system");
    assert_eq!(msgs[0].content, "sys");
    assert_eq!(msgs[1].role, "user");
    assert_eq!(msgs[1].content, "user prompt");
    assert_eq!(resolve_model("  ", "fallback"), "fallback");
    assert_eq!(resolve_model("named", "fallback"), "named");
}

#[test]
fn outcome_finalisation_rules() {
    let parsed = finalize_outcome(
        "{\"summary\":\"did it\"}",
        Some(LlmPayload {
            summary: "did it".to_string(),
            insights: Some(vec!["one".to_string()]),
            actions: None,
        }),
    );
    assert_eq!(parsed.summary, "did it");
    assert_eq!(parsed.insights, vec!["one".to_string()]);
    assert!(parsed.actions.is_empty());
    assert_eq!(parsed.raw_response, "{\"summary\":\"did it\"}");

    let plain = finalize_outcome("  just text  ", None);
    assert_eq!(plain.summary, "just text");
    assert!(plain.insights.is_empty());

    let blank = finalize_outcome("   ", None);
    assert_eq!(blank.summary, "agent completed without summary");
}

#[test]
fn default_agents_table() {
    let agents = default_agents("nous-hermes-2-3b.Q4");
    assert_eq!(agents.len(), 6);
    assert_eq!(agents[0].agent, AgentKind::Code);
    assert_eq!(agents[0].name, "Code Synthesis Agent");
    assert_eq!(agents[5].agent, AgentKind::Doc);
    assert_eq!(agents[5].name, "Documentation Agent");
    assert!(agents.iter().all(|a| a.default_model == "nous-hermes-2-3b.Q4"));
    assert!(agents.iter().all(|a| a.default_parameters == AgentParameters::default()));
    assert!(system_prompt_for(AgentKind::Security).contains("security"));
}

#[test]
fn list_agents_is_ordered_by_kind() {
    let d = dispatcher();
    let listed = d.list_agents();
    assert_eq!(listed.len(), 6);
    for pair in listed.windows(2) {
        assert!(pair[0].agent.rank() < pair[1].agent.rank());
    }
}

#[test]
fn context_file_resolution() {
    // inline utf-8 content
    let (file, note) = resolve_context_file(
        AgentContextFileParams {
            path: None,
            title: Some("inline".to_string()),
            encoding: None,
            max_bytes: None,
            content_base64: Some("aGVsbG8=".to_string()),
        },
        None,
    )
    .unwrap();
    assert_eq!(file.title, "inline");
    assert!(matches!(file.content, AgentFileContent::Utf8(ref s) if s == "hello"));
    assert!(note.is_none());

    // truncation to the per-file budget leaves a note
    let (file, note) = resolve_context_file(
        AgentContextFileParams {
            path: None,
            title: None,
            encoding: None,
            max_bytes: Some(3),
            content_base64: Some("aGVsbG8=".to_string()),
        },
        None,
    )
    .unwrap();
    assert!(matches!(file.content, AgentFileContent::Utf8(ref s) if s == "hel"));
    assert!(note.unwrap().contains("truncated to 3 bytes"));

    // bytes that are not UTF-8 fall back to base64
    let (file, note) = resolve_context_file(
        AgentContextFileParams {
            path: Some("data.bin".to_string()),
            title: None,
            encoding: None,
            max_bytes: None,
            content_base64: None,
        },
        Some(vec![0xff, 0xfe, 0x00]),
    )
    .unwrap();
    assert_eq!(file.title, "data.bin");
    match &file.content {
        AgentFileContent::Base64(encoded) => assert_eq!(encoded, "//4A"),
        other => panic!("unexpected content: {:?}", other),
    }
    assert!(note.unwrap().contains("non UTF-8"));

    // a path is required when nothing is inline
    assert!(matches!(
        resolve_context_file(
            AgentContextFileParams {
                path: None,
                title: None,
                encoding: None,
                max_bytes: None,
                content_base64: None,
            },
            None,
        ),
        Err(SandboxError::InvalidOperation(_))
    ));
}

#[test]
fn error_messages_render_exactly() {
    assert_eq!(SandboxError::PathTraversal.message(), "path traversal detected");
    assert_eq!(
        SandboxError::MicroVmNotFound(7).message(),
        "micro vm '7' not found"
    );
    assert_eq!(
        SandboxError::FileTooLarge(1048577).message(),
        "file too large: 1048577 bytes exceeds limit"
    );
    assert_eq!(
        SandboxError::AgentTaskNotFound(12345).message(),
        "agent task '12345' not found"
    );
}
