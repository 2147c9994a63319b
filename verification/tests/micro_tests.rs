use cyberdev_sandbox::errors::SandboxError;
use cyberdev_sandbox::micro::{
    MicroConfig, MicroExecuteRequest, MicroImage, MicroStartRequest, SandboxMicro,
};
use cyberdev_sandbox::run::RawProcessOutput;

fn python_image() -> MicroImage {
    MicroImage::new(
        "python",
        "python3",
        vec!["-u".to_string()],
        "py",
        vec![("PYTHONUNBUFFERED".to_string(), "1".to_string())],
    )
    .unwrap()
}

fn micro() -> SandboxMicro {
    let config = MicroConfig::new(
        "/work/micro",
        vec![python_image()],
        2_000,
        6_000,
        64 * 1024,
        vec![("PATH".to_string(), "/usr/bin:/bin".to_string())],
    )
    .unwrap();
    SandboxMicro::new(config)
}

#[test]
fn image_validation_trims_and_rejects_blanks() {
    assert!(MicroImage::new("", "python3", vec![], "py", vec![]).is_err());
    assert!(MicroImage::new("python", "  ", vec![], "py", vec![]).is_err());
    assert!(MicroImage::new("python", "python3", vec![], " ...", vec![]).is_err());
    let img = MicroImage::new(
        "  python ",
        " python3 ",
        vec![" -u ".to_string(), "  ".to_string()],
        " .py",
        vec![(" K ".to_string(), "v".to_string()), (" ".to_string(), "dropped".to_string())],
    )
    .unwrap();
    assert_eq!(img.name(), "python");
    assert_eq!(img.command(), "python3");
    assert_eq!(img.extension(), "py");
    assert_eq!(img.args(), &vec!["-u".to_string()]);
    assert_eq!(img.env(), &vec![("K".to_string(), "v".to_string())]);
}

#[test]
fn config_rejects_duplicates_and_bad_limits() {
    assert!(MicroConfig::new("/w", vec![python_image(), python_image()], 1, 2, 10, vec![]).is_err());
    assert!(MicroConfig::new("/w", vec![python_image()], 5, 4, 10, vec![]).is_err());
    assert!(MicroConfig::new("/w", vec![python_image()], 1, 2, 0, vec![]).is_err());
    assert!(MicroConfig::new("/w", vec![], 1, 2, 10, vec![]).is_err());
    assert!(MicroConfig::new("w", vec![python_image()], 1, 2, 10, vec![]).is_err());
}

#[test]
fn rejects_unknown_image() {
    let mut sandbox = micro();
    let err = sandbox
        .begin_start(&MicroStartRequest { image: "unknown".to_string(), init_script: None })
        .unwrap_err();
    assert!(matches!(err, SandboxError::MicroImageNotConfigured(_)));
}

#[test]
fn start_builds_workdir_and_init_job() {
    let mut sandbox = micro();
    let plan = sandbox
        .begin_start(&MicroStartRequest {
            image: "python".to_string(),
            init_script: Some("print('boot')".to_string()),
        })
        .unwrap();
    assert_eq!(plan.workdir, format!("/work/micro/vm-{}", plan.vm_id));
    let init = plan.init.as_ref().unwrap();
    assert_eq!(init.command, "python3");
    assert_eq!(init.contents, "print('boot')\n");
    assert!(init.script_path.starts_with(&plan.workdir));
    assert!(init.script_path.ends_with(".py"));
    assert_eq!(init.timeout_ms, 2_000);
    let instance = sandbox.commit_start(plan);
    assert_eq!(instance.image(), "python");
}

#[test]
fn blank_init_script_is_skipped() {
    let mut sandbox = micro();
    let plan = sandbox
        .begin_start(&MicroStartRequest {
            image: "python".to_string(),
            init_script: Some("   ".to_string()),
        })
        .unwrap();
    assert!(plan.init.is_none());
}

#[test]
fn executes_python_code_plan() {
    let mut sandbox = micro();
    let plan = sandbox
        .begin_start(&MicroStartRequest { image: "python".to_string(), init_script: None })
        .unwrap();
    let workdir = plan.workdir.clone();
    let instance = sandbox.commit_start(plan);
    let job = sandbox
        .plan_execute(&MicroExecuteRequest {
            vm_id: instance.id(),
            code: "print(6 * 7)".to_string(),
            timeout_ms: Some(2_000),
        })
        .unwrap();
    assert_eq!(job.command, "python3");
    assert_eq!(job.contents, "print(6 * 7)\n");
    assert_eq!(job.workdir, workdir);
    assert_eq!(job.timeout_ms, 2_000);
    assert_eq!(job.max_output_bytes, 64 * 1024);
    // base env, then HOME and the image marker, then the image's own pairs
    assert_eq!(
        job.env,
        vec![
            ("PATH".to_string(), "/usr/bin:/bin".to_string()),
            ("HOME".to_string(), workdir.clone()),
            ("MICRO_SANDBOX_IMAGE".to_string(), "python".to_string()),
            ("PYTHONUNBUFFERED".to_string(), "1".to_string()),
        ]
    );
    // image args first, the script path last
    assert_eq!(job.args.len(), 2);
    assert_eq!(job.args[0], "-u");
    assert_eq!(job.args[1], job.script_path);
}

#[test]
fn execute_validates_instance_and_timeout() {
    let mut sandbox = micro();
    let err = sandbox
        .plan_execute(&MicroExecuteRequest {
            vm_id: 999,
            code: "print(1)".to_string(),
            timeout_ms: None,
        })
        .unwrap_err();
    assert_eq!(err, SandboxError::MicroVmNotFound(999));

    let plan = sandbox
        .begin_start(&MicroStartRequest { image: "python".to_string(), init_script: None })
        .unwrap();
    let instance = sandbox.commit_start(plan);
    assert!(matches!(
        sandbox.plan_execute(&MicroExecuteRequest {
            vm_id: instance.id(),
            code: "x".to_string(),
            timeout_ms: Some(0),
        }),
        Err(SandboxError::InvalidOperation(_))
    ));
    assert!(sandbox
        .plan_execute(&MicroExecuteRequest {
            vm_id: instance.id(),
            code: "x".to_string(),
            timeout_ms: Some(6_000),
        })
        .is_ok());
    assert!(matches!(
        sandbox.plan_execute(&MicroExecuteRequest {
            vm_id: instance.id(),
            code: "x".to_string(),
            timeout_ms: Some(6_001),
        }),
        Err(SandboxError::InvalidOperation(_))
    ));
}

#[test]
fn stop_twice_reports_missing() {
    let mut sandbox = micro();
    let plan = sandbox
        .begin_start(&MicroStartRequest { image: "python".to_string(), init_script: None })
        .unwrap();
    let instance = sandbox.commit_start(plan);
    let id = instance.id();
    let workdir = sandbox.stop(id).unwrap();
    assert_eq!(workdir, instance.workdir());
    assert_eq!(sandbox.stop(id), Err(SandboxError::MicroVmNotFound(id)));
}

#[test]
fn finish_execute_applies_output_cap() {
    let sandbox = micro();
    let out = sandbox
        .finish_execute(RawProcessOutput {
            exit_code: Some(0),
            stdout: b"42\n".to_vec(),
            stderr: Vec::new(),
            duration_ms: 12,
        })
        .unwrap();
    assert_eq!(out.exit_code, 0);
    assert_eq!(out.stdout, b"42\n");
    assert!(sandbox
        .finish_execute(RawProcessOutput {
            exit_code: Some(0),
            stdout: vec![0; 64 * 1024 + 1],
            stderr: Vec::new(),
            duration_ms: 1,
        })
        .is_err());
    assert_eq!(
        sandbox
            .finish_execute(RawProcessOutput {
                exit_code: None,
                stdout: Vec::new(),
                stderr: Vec::new(),
                duration_ms: 1,
            })
            .unwrap_err(),
        SandboxError::TerminatedBySignal
    );
}
