use cyberdev_sandbox::errors::{SandboxError, StreamKind};
use cyberdev_sandbox::run::{RawProcessOutput, RunConfig, RunRequest, SandboxRun};

fn runner() -> SandboxRun {
    let config = RunConfig::new(
        "/work",
        vec!["/bin/sh".to_string()],
        vec!["CUSTOM_GREETING".to_string(), "PATH".to_string()],
        vec![("PATH".to_string(), "/usr/bin:/bin".to_string())],
        2_000,
        6_000,
        64 * 1024,
    )
    .unwrap();
    SandboxRun::new(config)
}

#[test]
fn rejects_disallowed_command() {
    let sandbox = runner();
    let err = sandbox.prepare(RunRequest::new("rm")).unwrap_err();
    match err {
        SandboxError::InvalidOperation(message) => {
            assert!(message.contains("not permitted"), "unexpected message: {}", message);
            assert!(message.contains("rm"));
        }
        other => panic!("unexpected error variant: {:?}", other),
    }
}

#[test]
fn rejects_disallowed_programs() {
    let sandbox = runner();
    let err = sandbox
        .prepare(RunRequest::new("/usr/bin/env").with_args(vec!["python3".to_string()]))
        .unwrap_err();
    match err {
        SandboxError::InvalidOperation(message) => {
            assert!(message.contains("not permitted"), "unexpected message: {}", message);
        }
        other => panic!("unexpected error variant: {:?}", other),
    }
}

#[test]
fn rejects_working_directory_escape() {
    let sandbox = runner();
    let err = sandbox
        .prepare(RunRequest::new("/bin/sh").with_working_dir("../escape"))
        .unwrap_err();
    assert_eq!(err, SandboxError::PathTraversal);
}

#[test]
fn rejects_forbidden_environment_variables() {
    let sandbox = runner();
    let err = sandbox
        .prepare(RunRequest::new("/bin/sh").with_env(vec![("SECRET".to_string(), "1".to_string())]))
        .unwrap_err();
    assert!(matches!(err, SandboxError::InvalidOperation(_)));
}

#[test]
fn composes_environment_from_fixed_then_request() {
    let sandbox = runner();
    let plan = sandbox
        .prepare(
            RunRequest::new("/bin/sh")
                .with_args(vec!["-c".to_string(), "echo $CUSTOM_GREETING".to_string()])
                .with_env(vec![("CUSTOM_GREETING".to_string(), "ready".to_string())]),
        )
        .unwrap();
    assert_eq!(
        plan.env,
        vec![
            ("PATH".to_string(), "/usr/bin:/bin".to_string()),
            ("CUSTOM_GREETING".to_string(), "ready".to_string()),
        ]
    );
    assert_eq!(plan.program, "/bin/sh");
    assert_eq!(plan.args, vec!["-c".to_string(), "echo $CUSTOM_GREETING".to_string()]);
    assert_eq!(plan.working_dir, "/work");
    assert_eq!(plan.timeout_ms, 2_000);
    assert_eq!(plan.max_output_bytes, 64 * 1024);
}

#[test]
fn timeout_boundaries() {
    let sandbox = runner();
    assert!(sandbox
        .prepare(RunRequest::new("/bin/sh").with_timeout_ms(6_000))
        .is_ok());
    assert!(matches!(
        sandbox.prepare(RunRequest::new("/bin/sh").with_timeout_ms(6_001)),
        Err(SandboxError::InvalidOperation(_))
    ));
    assert!(matches!(
        sandbox.prepare(RunRequest::new("/bin/sh").with_timeout_ms(0)),
        Err(SandboxError::InvalidOperation(_))
    ));
}

#[test]
fn bounds_captured_output() {
    let sandbox = runner();
    let over = vec![0_u8; 64 * 1024 + 1];
    let r = sandbox.finish(RawProcessOutput {
        exit_code: Some(0),
        stdout: over.clone(),
        stderr: Vec::new(),
        duration_ms: 10,
    });
    assert_eq!(
        r.unwrap_err(),
        SandboxError::OutputTooLarge { stream: StreamKind::Stdout, limit: 64 * 1024 }
    );
    let r = sandbox.finish(RawProcessOutput {
        exit_code: Some(0),
        stdout: Vec::new(),
        stderr: over,
        duration_ms: 10,
    });
    assert_eq!(
        r.unwrap_err(),
        SandboxError::OutputTooLarge { stream: StreamKind::Stderr, limit: 64 * 1024 }
    );
}

#[test]
fn signal_termination_is_reported() {
    let sandbox = runner();
    let r = sandbox.finish(RawProcessOutput {
        exit_code: None,
        stdout: Vec::new(),
        stderr: Vec::new(),
        duration_ms: 5,
    });
    assert_eq!(r.unwrap_err(), SandboxError::TerminatedBySignal);
}

#[test]
fn passes_bounded_output_through() {
    let sandbox = runner();
    let out = sandbox
        .finish(RawProcessOutput {
            exit_code: Some(3),
            stdout: b"ready\n".to_vec(),
            stderr: b"warn\n".to_vec(),
            duration_ms: 42,
        })
        .unwrap();
    assert_eq!(out.exit_code, 3);
    assert_eq!(out.stdout, b"ready\n");
    assert_eq!(out.stderr, b"warn\n");
    assert_eq!(out.duration_ms, 42);
}

#[test]
fn config_validation() {
    assert!(RunConfig::new("/w", vec!["sh".to_string()], vec![], vec![], 5, 4, 10).is_err());
    assert!(RunConfig::new("/w", vec!["sh".to_string()], vec![], vec![], 5, 5, 0).is_err());
    assert!(RunConfig::new("/w", vec![], vec![], vec![], 5, 5, 10).is_err());
    assert!(RunConfig::new("w", vec!["sh".to_string()], vec![], vec![], 5, 5, 10).is_err());
    let cfg = RunConfig::new("/w", vec!["sh".to_string()], vec![], vec![], 5, 5, 10).unwrap();
    assert_eq!(cfg.root(), "/w");
    assert_eq!(cfg.allowed_programs(), &vec!["sh".to_string()]);
    assert_eq!(cfg.default_timeout_ms(), 5);
    assert_eq!(cfg.max_timeout_ms(), 5);
    assert_eq!(cfg.max_output_bytes(), 10);
}
