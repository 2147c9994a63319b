//! End-to-end scenarios: the library's plans driven against the real host —
//! a temporary workspace on disk, `/bin/sh`, `python3` and the wasm engine —
//! the way the runtime shell drives them.

use std::time::Instant;

use cyberdev_sandbox::errors::SandboxError;
use cyberdev_sandbox::fs::{decode_entry_name, order_listing, FileEntry, SandboxConfig, SandboxFs};
use cyberdev_sandbox::micro::{
    MicroConfig, MicroExecuteRequest, MicroImage, MicroScriptJob, MicroStartRequest, SandboxMicro,
};
use cyberdev_sandbox::run::{RawProcessOutput, RunConfig, RunOutput, RunRequest, SandboxRun};

const SYSTEM_PATH: &str = "/usr/local/bin:/usr/bin:/bin";

fn runtime() -> tokio::runtime::Runtime {
    tokio::runtime::Builder::new_current_thread().enable_all().build().unwrap()
}

async fn disk_write(fs: &SandboxFs, path: &str, data: &[u8]) {
    let target = fs.write(path, data).unwrap();
    if let Some(parent) = std::path::Path::new(&target).parent() {
        tokio::fs::create_dir_all(parent).await.unwrap();
    }
    tokio::fs::write(&target, data).await.unwrap();
}

async fn disk_read(fs: &SandboxFs, path: &str) -> Vec<u8> {
    let target = fs.read(path).unwrap();
    let meta = tokio::fs::metadata(&target).await.unwrap();
    fs.check_file_size(meta.len()).unwrap();
    tokio::fs::read(&target).await.unwrap()
}

async fn disk_list(fs: &SandboxFs, path: &str) -> Vec<FileEntry> {
    let target = fs.list(path).unwrap();
    let mut dir = tokio::fs::read_dir(&target).await.unwrap();
    let mut entries = Vec::new();
    while let Some(entry) = dir.next_entry().await.unwrap() {
        let raw = entry.file_name().into_string().expect("test names are utf-8");
        let name = decode_entry_name(raw.into_bytes()).unwrap();
        let meta = entry.metadata().await.unwrap();
        entries.push(FileEntry { name, is_dir: meta.is_dir(), size: meta.len() });
    }
    order_listing(entries)
}

async fn spawn_run(run: &SandboxRun, request: RunRequest) -> Result<RunOutput, SandboxError> {
    let plan = run.prepare(request)?;
    let is_dir =
        tokio::fs::metadata(&plan.working_dir).await.map(|m| m.is_dir()).unwrap_or(false);
    run.confirm_working_dir(is_dir)?;
    let mut cmd = tokio::process::Command::new(&plan.program);
    cmd.args(&plan.args).current_dir(&plan.working_dir).env_clear().kill_on_drop(true);
    for (key, value) in &plan.env {
        cmd.env(key, value);
    }
    let start = Instant::now();
    let waited =
        tokio::time::timeout(std::time::Duration::from_millis(plan.timeout_ms), cmd.output())
            .await;
    let output = match waited {
        Ok(result) => result.unwrap(),
        Err(_) => return Err(SandboxError::Timeout(plan.timeout_ms)),
    };
    run.finish(RawProcessOutput {
        exit_code: output.status.code(),
        stdout: output.stdout,
        stderr: output.stderr,
        duration_ms: start.elapsed().as_millis() as u64,
    })
}

async fn spawn_script(job: &MicroScriptJob) -> RawProcessOutput {
    tokio::fs::write(&job.script_path, job.contents.as_bytes()).await.unwrap();
    let mut cmd = tokio::process::Command::new(&job.command);
    cmd.current_dir(&job.workdir).env_clear().kill_on_drop(true);
    for (key, value) in &job.env {
        cmd.env(key, value);
    }
    cmd.args(&job.args);
    let start = Instant::now();
    let output = cmd.output().await.unwrap();
    tokio::fs::remove_file(&job.script_path).await.unwrap();
    RawProcessOutput {
        exit_code: output.status.code(),
        stdout: output.stdout,
        stderr: output.stderr,
        duration_ms: start.elapsed().as_millis() as u64,
    }
}

#[test]
fn full_sandbox_pipeline() {
    runtime().block_on(async {
        let temp = tempfile::TempDir::new().unwrap();
        let root = temp.path().join("workspace");
        tokio::fs::create_dir_all(&root).await.unwrap();
        let root = root.to_str().unwrap().to_string();
        let fs = SandboxFs::new(SandboxConfig::new(&root, 512 * 1024).unwrap());

        disk_write(&fs, "project/message.txt", b"CyberDevStudio").await;
        let echoed = disk_read(&fs, "project/message.txt").await;
        assert_eq!(echoed, b"CyberDevStudio");

        let listed = disk_list(&fs, ".").await;
        assert!(listed.iter().any(|e| e.name == "project" && e.is_dir));

        let run_config = RunConfig::new(
            &root,
            vec!["/bin/sh".to_string()],
            vec!["CUSTOM_GREETING".to_string()],
            vec![("PATH".to_string(), SYSTEM_PATH.to_string())],
            2_000,
            6_000,
            64 * 1024,
        )
        .unwrap();
        let run = SandboxRun::new(run_config);
        let output = spawn_run(
            &run,
            RunRequest::new("/bin/sh")
                .with_args(vec![
                    "-c".to_string(),
                    "echo $CUSTOM_GREETING && cat project/message.txt".to_string(),
                ])
                .with_env(vec![("CUSTOM_GREETING".to_string(), "ready".to_string())]),
        )
        .await
        .unwrap();
        assert_eq!(output.exit_code, 0);
        assert!(output.stderr.is_empty());
        // the file carries no trailing newline, so `cat` emits none after it
        assert_eq!(String::from_utf8(output.stdout).unwrap(), "ready\nCyberDevStudio");
    });
}

#[test]
fn executes_whitelisted_program() {
    runtime().block_on(async {
        let temp = tempfile::TempDir::new().unwrap();
        let root = temp.path().to_str().unwrap().to_string();
        let config = RunConfig::new(
            &root,
            vec!["/bin/sh".to_string()],
            Vec::new(),
            vec![("PATH".to_string(), SYSTEM_PATH.to_string())],
            2_000,
            5_000,
            32 * 1024,
        )
        .unwrap();
        let sandbox = SandboxRun::new(config);
        let output = spawn_run(
            &sandbox,
            RunRequest::new("/bin/sh")
                .with_args(vec!["-c".to_string(), "printf '%s' ready".to_string()]),
        )
        .await
        .unwrap();
        assert_eq!(output.exit_code, 0);
        assert_eq!(String::from_utf8(output.stdout).unwrap(), "ready");
        assert!(output.stderr.is_empty());
    });
}

#[test]
fn enforces_timeout() {
    runtime().block_on(async {
        let temp = tempfile::TempDir::new().unwrap();
        let root = temp.path().to_str().unwrap().to_string();
        let config = RunConfig::new(
            &root,
            vec!["/bin/sh".to_string()],
            Vec::new(),
            vec![("PATH".to_string(), SYSTEM_PATH.to_string())],
            500,
            2_000,
            8 * 1024,
        )
        .unwrap();
        let sandbox = SandboxRun::new(config);
        let start = Instant::now();
        let err = spawn_run(
            &sandbox,
            RunRequest::new("/bin/sh")
                .with_args(vec!["-c".to_string(), "sleep 2".to_string()])
                .with_timeout_ms(200),
        )
        .await
        .unwrap_err();
        assert_eq!(err, SandboxError::Timeout(200));
        assert!(start.elapsed().as_millis() <= 400, "timeout was not prompt");
    });
}

#[test]
fn honors_custom_working_directory() {
    runtime().block_on(async {
        let temp = tempfile::TempDir::new().unwrap();
        let root = temp.path().to_str().unwrap().to_string();
        tokio::fs::create_dir_all(temp.path().join("nested")).await.unwrap();
        let config = RunConfig::new(
            &root,
            vec!["/bin/sh".to_string()],
            Vec::new(),
            vec![("PATH".to_string(), SYSTEM_PATH.to_string())],
            2_000,
            5_000,
            32 * 1024,
        )
        .unwrap();
        let sandbox = SandboxRun::new(config);
        let output = spawn_run(
            &sandbox,
            RunRequest::new("/bin/sh")
                .with_args(vec!["-c".to_string(), "pwd".to_string()])
                .with_working_dir("nested"),
        )
        .await
        .unwrap();
        assert_eq!(output.exit_code, 0);
        let stdout = String::from_utf8(output.stdout).unwrap();
        assert!(stdout.trim_end().ends_with("/nested"));
    });
}

#[test]
fn executes_python_code() {
    runtime().block_on(async {
        if tokio::fs::metadata("/usr/bin/python3").await.is_err() {
            // no interpreter on this host: the micro policy is still covered
            // by the plan-level tests
            return;
        }
        let temp = tempfile::TempDir::new().unwrap();
        let root = temp.path().to_str().unwrap().to_string();
        let image = MicroImage::new(
            "python",
            "/usr/bin/python3",
            vec!["-u".to_string()],
            "py",
            vec![("PYTHONUNBUFFERED".to_string(), "1".to_string())],
        )
        .unwrap();
        let config = MicroConfig::new(
            &root,
            vec![image],
            2_000,
            6_000,
            64 * 1024,
            vec![("PATH".to_string(), SYSTEM_PATH.to_string())],
        )
        .unwrap();
        let mut micro = SandboxMicro::new(config);

        let plan = micro
            .begin_start(&MicroStartRequest {
                image: "python".to_string(),
                init_script: Some("print('boot')".to_string()),
            })
            .unwrap();
        tokio::fs::create_dir_all(&plan.workdir).await.unwrap();
        let init = plan.init.as_ref().unwrap();
        let boot = spawn_script(init).await;
        assert_eq!(boot.exit_code, Some(0));
        let instance = micro.commit_start(plan);

        let job = micro
            .plan_execute(&MicroExecuteRequest {
                vm_id: instance.id(),
                code: "print(6 * 7)".to_string(),
                timeout_ms: Some(2_000),
            })
            .unwrap();
        let raw = spawn_script(&job).await;
        let execution = micro.finish_execute(raw).unwrap();
        assert_eq!(execution.exit_code, 0);
        assert!(execution.stderr.is_empty());
        assert_eq!(String::from_utf8(execution.stdout).unwrap(), "42\n");

        let workdir = micro.stop(instance.id()).unwrap();
        tokio::fs::remove_dir_all(&workdir).await.unwrap();
        assert!(tokio::fs::metadata(&workdir).await.is_err());
        assert_eq!(
            micro.stop(instance.id()),
            Err(SandboxError::MicroVmNotFound(instance.id()))
        );
    });
}
