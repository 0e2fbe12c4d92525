use statix_agent::jobs::runners::microvm::guest::{
    boot_status_command, boot_wait_command, boot_warning, cloud_init_status_args,
    cloud_init_status_is_done, cloud_init_status_is_error, cloud_init_wait_args,
    emit_new_project_qemu_log_lines, finish_guest_command, guest_ssh_command, judge_probe,
    judge_status, judge_upload, log_start, probe_args, probe_command, project_exit_failure,
    project_qemu_log_line_is_useful, readiness_stderr_is_non_actionable, remote_command,
    ssh_command, ssh_command_args, ssh_timeout_message, upload_args, upload_command, BootOutcome,
    BootStep, BootWait, GuestWait, ProbeOutcome, ProjectQemuLogCursor, StatusOutcome,
    StreamFailure, UploadOutcome, UploadVerdict, WaitStep,
};
use statix_agent::jobs::runners::microvm::image::{
    archive_args, image_cache_dir, image_reference, judge_archive, judge_keypair, judge_overlay,
    judge_seed, keypair_args, meta_data, network_config, overlay_args,
    resolve_base_image, seed_args, seed_files, user_data, BaseImage, ImageError,
};
use statix_agent::jobs::runners::microvm::project::{
    next_stop_step, stop_plan, StopEvent, StopStep,
};
use statix_agent::jobs::runners::microvm::qemu::{
    desired_project_qemu_command, format_qemu_command, project_qemu_command,
    project_qemu_exit_status, project_qemu_pid, qemu_end_note, qemu_launch_args,
    qemu_files, recent_project_qemu_logs, remove_stale_project_qemu_pid,
    stop_project_qemu_process, EmulatorEnd, PidAction, RecentLogs,
};
use statix_agent::jobs::runners::microvm::runner::{
    microvm_step_note, next_microvm_step, MicrovmStep,
};
use statix_agent::jobs::runners::microvm::service::{
    project_messages, ProjectEvent, ProjectRun, ProjectStep,
};
use statix_agent::jobs::runners::microvm::util::{
    canonical_ubuntu_image_url, image_cache_key, missing_dependency_message, project_vm_key,
    project_vm_ssh_port, qemu_binary, qemu_package_hint, safe_path_segment, truncate_for_log,
};
use statix_agent::jobs::runners::microvm::{MicrovmRunner, ProjectMicrovmRunner};
use statix_agent::jobs::{
    check_run, choose_runner, summarize_command_output, summarize_texts, truncate_output,
    ChosenRunner, JobLogStream, RunError, RunnerEnvironment,
};
use statix_agent::netaddr::Ipv4Addr;
use statix_agent::networking::VmNetworkLease;
use statix_agent::process::CommandOutput;

fn output(success: bool, stdout: &str, stderr: &str) -> CommandOutput {
    CommandOutput {
        success,
        status: if success { "exit status: 0".to_string() } else { "exit status: 1".to_string() },
        stdout: stdout.as_bytes().to_vec(),
        stderr: stderr.as_bytes().to_vec(),
    }
}

fn strings(v: &[&str]) -> Vec<String> {
    v.iter().map(|s| s.to_string()).collect()
}

fn lease() -> VmNetworkLease {
    VmNetworkLease {
        vm_ip: Ipv4Addr::new(172, 31, 5, 6),
        tap_name: "stx1".to_string(),
        mac_address: "02:53:00:00:00:01".to_string(),
        prefix_len: 16,
    }
}

#[test]
fn readiness_known_host_warning_is_non_actionable() {
    assert!(readiness_stderr_is_non_actionable(""));
    assert!(readiness_stderr_is_non_actionable(
        "Warning: Permanently added '[127.0.0.1]:2222' (ED25519) to the list of known hosts."
    ));
    assert!(!readiness_stderr_is_non_actionable("Permission denied (publickey)."));
}

#[test]
fn qemu_launch_args_enable_kvm_fallback_and_split_wx_tcg() {
    let args = qemu_launch_args("/tmp/disk.qcow2", "/tmp/seed.iso", 4, 2048, 2222, None);

    assert_eq!(
        args,
        vec![
            "-nodefaults",
            "-no-user-config",
            "-machine",
            "q35,usb=off",
            "-cpu",
            "host",
            "-display",
            "none",
            "-vga",
            "none",
            "-serial",
            "stdio",
            "-no-reboot",
            "-m",
            "2048",
            "-smp",
            "4",
            "-accel",
            "kvm",
            "-accel",
            "tcg,split-wx=on,thread=multi",
            "-drive",
            "if=none,id=rootdisk,format=qcow2,file=/tmp/disk.qcow2",
            "-device",
            "virtio-blk-pci,drive=rootdisk,bootindex=0",
            "-drive",
            "if=none,id=seed,format=raw,file=/tmp/seed.iso,media=cdrom,readonly=on",
            "-device",
            "virtio-blk-pci,drive=seed",
            "-device",
            "virtio-rng-pci",
            "-netdev",
            "user,id=net0,hostfwd=tcp::2222-:22",
            "-device",
            "virtio-net-pci,netdev=net0,mac=52:54:00:12:34:56",
        ]
        .into_iter()
        .map(String::from)
        .collect::<Vec<_>>()
    );
}

#[test]
fn a_lease_adds_a_tap_device() {
    let n = lease();
    let plain = qemu_launch_args("/d", "/s", 1, 1, 1, None);
    let with = qemu_launch_args("/d", "/s", 1, 1, 1, Some(&n));
    assert_eq!(with[..plain.len()], plain[..]);
    assert_eq!(
        with[plain.len()..],
        strings(&[
            "-netdev",
            "tap,id=net1,ifname=stx1,script=no,downscript=no",
            "-device",
            "virtio-net-pci,netdev=net1,mac=02:53:00:00:00:01",
        ])[..]
    );
}

#[test]
fn emulator_command_is_kept_as_the_shell_reads_it() {
    assert_eq!(format_qemu_command("q", &strings(&["-a", "b c"])), "q -a 'b c'\n");
    assert_eq!(project_qemu_command(Some("q -a\n")), Some("q -a".to_string()));
    assert_eq!(project_qemu_command(Some(" \n")), None);
    assert_eq!(project_qemu_command(None), None);
    let wanted = desired_project_qemu_command("x86_64", "/d", "/s", 1, 64, 22200, None).unwrap();
    assert!(wanted.starts_with("qemu-system-x86_64 -nodefaults "));
    assert!(wanted.ends_with("virtio-net-pci,netdev=net0,mac=52:54:00:12:34:56"));
    assert_eq!(
        desired_project_qemu_command("mips", "/d", "/s", 1, 64, 22200, None).unwrap_err(),
        "unsupported host architecture for microvm runner: mips"
    );
}

#[test]
fn architectures_have_their_programs() {
    assert_eq!(qemu_binary("x86_64"), Ok("qemu-system-x86_64"));
    assert_eq!(qemu_binary("aarch64"), Ok("qemu-system-aarch64"));
    assert!(qemu_binary("riscv64").is_err());
    assert_eq!(qemu_package_hint("x86_64"), "qemu-system-x86");
    assert_eq!(qemu_package_hint("aarch64"), "qemu-system-arm");
    assert_eq!(qemu_package_hint("riscv64"), "qemu-system");
    assert!(canonical_ubuntu_image_url("aarch64").ends_with("arm64.img"));
    assert!(canonical_ubuntu_image_url("x86_64").ends_with("amd64.img"));
    assert!(canonical_ubuntu_image_url("other").ends_with("amd64.img"));
    assert_eq!(
        missing_dependency_message("qemu-img", "qemu-utils"),
        "failed to launch qemu-img; install the 'qemu-utils' package and ensure qemu-img is on PATH"
    );
}

#[test]
fn machine_names_come_from_digests() {
    assert_eq!(project_vm_key("proj", "prod"), "proj-prod-a085487a58fb");
    assert_eq!(project_vm_ssh_port("proj-prod-a085487a58fb"), 22619);
    assert_eq!(
        image_cache_key("https://cloud-images.ubuntu.com/noble/current/noble-server-cloudimg-amd64.img"),
        "f4d6c0a4a56d309cb2de6ed0e6f819dc4c2d98880a079ba4622e50bb2edd5663"
    );
    assert_eq!(safe_path_segment("a/../b"), "a-b");
    assert_eq!(truncate_for_log("abcdef", 3), "abc...");
    assert_eq!(truncate_for_log("abc", 3), "abc");
}

#[test]
fn pid_files_decide_what_is_done() {
    assert_eq!(stop_project_qemu_process(None), PidAction::Leave);
    assert_eq!(stop_project_qemu_process(Some("x")), PidAction::RemoveFile);
    assert_eq!(stop_project_qemu_process(Some(" 42\n")), PidAction::KillThenRemove(42));
    assert_eq!(remove_stale_project_qemu_pid(Some("42")), PidAction::RemoveUnlessRunning(42));
    assert_eq!(remove_stale_project_qemu_pid(Some("-1")), PidAction::RemoveFile);
    assert_eq!(remove_stale_project_qemu_pid(None), PidAction::Leave);
    assert_eq!(project_qemu_pid(Some("7")), Some(7));
    assert_eq!(project_qemu_pid(Some("4294967296")), None);
    assert_eq!(project_qemu_exit_status(7, true), None);
    assert_eq!(project_qemu_exit_status(7, false), Some("pid 7 is no longer running".to_string()));
}

#[test]
fn recent_logs_keep_the_last_lines() {
    let mut logs = RecentLogs::new();
    assert_eq!(
        logs.failure_message("exit status: 1"),
        "qemu exited before the guest became ready: exit status: 1"
    );
    for i in 0..40 {
        logs.keep("stderr", &format!("line {i}"));
    }
    assert_eq!(logs.lines.len(), 32);
    assert_eq!(logs.lines[0], "stderr: line 8");
    assert_eq!(logs.lines[31], "stderr: line 39");
    assert!(logs.failure_message("s").starts_with(
        "qemu exited before the guest became ready: s\nrecent qemu logs:\nstderr: line 8\n"
    ));
}

#[test]
fn log_files_are_quoted_where_they_hold_something() {
    let long = "y".repeat(4_001);
    assert_eq!(
        recent_project_qemu_logs(Some(" x \n"), Some("  "), Some(&long)),
        format!("qemu.command.txt:\nx\nqemu.stdout.log:\n{}...", "y".repeat(4_000))
    );
    assert_eq!(
        recent_project_qemu_logs(Some("c"), Some("e"), Some("o")),
        "qemu.command.txt:\nc\nqemu.stderr.log:\ne\nqemu.stdout.log:\no"
    );
    assert_eq!(recent_project_qemu_logs(None, None, None), "");
}

#[test]
fn files_of_the_emulator_stand_below_its_root() {
    let files = qemu_files("/r");
    assert_eq!(files.pid, "/r/qemu.pid");
    assert_eq!(files.command, "/r/qemu.command.txt");
    assert_eq!(files.stdout, "/r/qemu.stdout.log");
    assert_eq!(files.stderr, "/r/qemu.stderr.log");
    assert_eq!(files.serial, "/r/qemu.serial.log");
}

#[test]
fn end_of_the_emulator_is_logged() {
    let good = EmulatorEnd::Exited { success: true, status: "0".to_string() };
    let bad = EmulatorEnd::Exited { success: false, status: "1".to_string() };
    let lost = EmulatorEnd::NotWaitedFor("e".to_string());
    assert_eq!(qemu_end_note(&good), (false, "qemu exited with status: 0".to_string()));
    assert_eq!(qemu_end_note(&bad), (true, "qemu exited with status: 1".to_string()));
    assert_eq!(qemu_end_note(&lost), (true, "failed to wait for qemu: e".to_string()));
}

#[test]
fn base_image_is_found_or_refused() {
    assert!(matches!(
        resolve_base_image("  ", false, "x86_64", "/r"),
        Err(ImageError::Empty)
    ));
    match resolve_base_image(" /img ", true, "x86_64", "/r") {
        Ok(BaseImage::Local(path)) => assert_eq!(path, "/img"),
        other => panic!("{other:?}"),
    }
    match resolve_base_image("ubuntu-noble", false, "x86_64", "/r") {
        Ok(BaseImage::Remote { url, cached }) => {
            assert_eq!(url, canonical_ubuntu_image_url("x86_64"));
            assert_eq!(
                cached,
                "/r/images/f4d6c0a4a56d309cb2de6ed0e6f819dc4c2d98880a079ba4622e50bb2edd5663.img"
            );
        }
        other => panic!("{other:?}"),
    }
    match resolve_base_image("https://x/y.img", false, "x86_64", "/r") {
        Ok(BaseImage::Remote { url, .. }) => assert_eq!(url, "https://x/y.img"),
        other => panic!("{other:?}"),
    }
    match resolve_base_image("ftp://x", false, "x86_64", "/r") {
        Err(e) => assert_eq!(e.message(), "unsupported microvm image reference: ftp://x"),
        other => panic!("{other:?}"),
    }
    assert_eq!(ImageError::Empty.message(), "microvm image must not be empty");
    assert_eq!(image_reference(" a "), "a");
}

#[test]
fn disks_are_made_by_commands() {
    assert_eq!(
        overlay_args("/b", "/o"),
        strings(&["create", "-f", "qcow2", "-F", "qcow2", "-b", "/b", "/o"])
    );
    assert_eq!(keypair_args("/k"), strings(&["-q", "-t", "ed25519", "-N", "", "-f", "/k"]));
    assert_eq!(archive_args("/a.tgz", "/w"), strings(&["-C", "/w", "-czf", "/a.tgz", "."]));
    let files = seed_files("/r");
    assert_eq!(
        seed_args(&files, false),
        strings(&["/r/seed.iso", "/r/seed.user-data", "/r/seed.meta-data"])
    );
    assert_eq!(
        seed_args(&files, true),
        strings(&[
            "/r/seed.iso",
            "--network-config",
            "/r/seed.network-config",
            "/r/seed.user-data",
            "/r/seed.meta-data",
        ])
    );
}

#[test]
fn first_boot_is_described() {
    assert_eq!(
        user_data(" ssh-ed25519 AAAA host\n"),
        "#cloud-config\nusers:\n  - name: statix\n    groups: [sudo]\n    shell: /bin/bash\n    sudo: ALL=(ALL) NOPASSWD:ALL\n    ssh_authorized_keys:\n      - ssh-ed25519 AAAA host\nssh_pwauth: false\ndisable_root: true\n"
    );
    assert_eq!(
        meta_data("a b"),
        "instance-id: statix-a-b\nlocal-hostname: statix-microvm\n"
    );
    assert_eq!(
        network_config(&lease(), &Ipv4Addr::new(172, 31, 0, 1)),
        "version: 2\nethernets:\n  statix0:\n    match:\n      macaddress: \"02:53:00:00:00:01\"\n    set-name: statix0\n    addresses:\n      - 172.31.5.6/16\n    gateway4: 172.31.0.1\n    nameservers:\n      addresses:\n        - 172.31.0.1\n"
    );
}

#[test]
fn guests_are_reached_with_their_options() {
    assert_eq!(
        probe_args("/k", 2222),
        strings(&[
            "-i", "/k", "-o", "BatchMode=yes", "-o", "ConnectTimeout=3", "-o",
            "StrictHostKeyChecking=no", "-o", "UserKnownHostsFile=/dev/null", "-o",
            "GlobalKnownHostsFile=/dev/null", "-o", "LogLevel=ERROR", "-p", "2222",
            "statix@127.0.0.1", "true",
        ])
    );
    let command = ssh_command_args("/k", 22200, 5, "ls -l");
    assert_eq!(command[5], "ConnectTimeout=5");
    assert_eq!(command.last().unwrap(), "ls -l");
    let wait = cloud_init_wait_args("/k", 1);
    assert_eq!(wait[wait.len() - 3..], strings(&["cloud-init", "status", "--wait"])[..]);
    assert_eq!(
        cloud_init_status_args("/k", 1).last().unwrap(),
        "cloud-init status --long 2>&1 || true"
    );
    let upload = upload_args("/k", 2222, "/w.tgz");
    assert_eq!(
        upload[upload.len() - 4..],
        strings(&["-P", "2222", "/w.tgz", "statix@127.0.0.1:/home/statix/workspace.tar.gz"])[..]
    );
}

#[test]
fn probes_are_judged() {
    let ok = ProbeOutcome::Exited { code: Some(0), output: output(true, "", "") };
    assert_eq!(judge_probe(&ok), Ok(()));
    let quiet = ProbeOutcome::Exited { code: Some(1), output: output(false, "", " \n") };
    assert_eq!(
        judge_probe(&quiet),
        Err("ssh is reachable; waiting for cloud-init boot-finished marker".to_string())
    );
    let other = ProbeOutcome::Exited { code: Some(255), output: output(false, "", "") };
    assert_eq!(
        judge_probe(&other),
        Err("ssh readiness probe exited with exit status: 1".to_string())
    );
    let told = ProbeOutcome::Exited { code: Some(255), output: output(false, "", "refused") };
    assert_eq!(
        judge_probe(&told),
        Err("ssh readiness probe exited with exit status: 1: refused".to_string())
    );
    assert_eq!(
        judge_probe(&ProbeOutcome::NotLaunched("e".to_string())),
        Err("failed to launch ssh readiness probe: e".to_string())
    );
    assert_eq!(
        judge_probe(&ProbeOutcome::TimedOut),
        Err("ssh readiness probe timed out".to_string())
    );
}

#[test]
fn a_wait_for_a_job_ends_in_time() {
    let mut wait = GuestWait::for_job(60);
    let logs = RecentLogs::new();
    assert!(matches!(wait.next_step(None, &logs, 0), WaitStep::Probe { limit_ms: 5_000 }));
    assert!(matches!(wait.next_step(None, &logs, 58_000), WaitStep::Probe { limit_ms: 2_000 }));
    match wait.next_step(None, &logs, 60_000) {
        WaitStep::Fail(e) => assert_eq!(e, "microvm did not become ready before timeout"),
        other => panic!("{other:?}"),
    }
    match wait.next_step(Some("exit status: 1"), &logs, 0) {
        WaitStep::Fail(e) => {
            assert_eq!(e, "qemu exited before the guest became ready: exit status: 1")
        }
        other => panic!("{other:?}"),
    }
    assert_eq!(wait.tell("microvm", 14_999, "x"), None);
    assert_eq!(
        wait.tell("microvm", 15_500, "x"),
        Some("waiting for microvm guest readiness for 15s; last probe: x".to_string())
    );
    assert_eq!(wait.tell("microvm", 19_999, "x"), None);
    assert!(wait.tell("microvm", 20_000, "x").is_some());
}

#[test]
fn a_wait_for_a_project_ends_in_time() {
    let mut wait = GuestWait::for_project(10);
    assert_eq!(wait.check_deadline("", 4_000), Ok(6_000));
    assert_eq!(
        wait.check_deadline(" ", 10_000),
        Err("project microvm did not become ready before timeout".to_string())
    );
    assert_eq!(
        wait.check_deadline("log", 10_001),
        Err("project microvm did not become ready before timeout\nrecent qemu logs:\nlog".to_string())
    );
    assert!(wait.tell("project microvm", 5_000, "x").is_some());
    assert_eq!(
        project_exit_failure("pid 7 is no longer running", "log"),
        "project qemu process exited before guest readiness: pid 7 is no longer running\nrecent qemu logs:\nlog"
    );
}

#[test]
fn first_boot_is_waited_for() {
    assert!(cloud_init_status_is_done("a\n status: done \nb"));
    assert!(!cloud_init_status_is_done("status: done now"));
    assert!(cloud_init_status_is_error("status: error"));

    let mut wait = BootWait::new(400_000);
    assert_eq!(wait.deadline_ms, 300_000);
    assert_eq!(BootWait::new(9).deadline_ms, 9);
    assert_eq!(wait.out_of_time(299_999), None);
    assert_eq!(
        wait.out_of_time(300_000),
        Some("cloud-init did not finish before readiness wait budget; continuing after SSH readiness".to_string())
    );
    match wait.after_report(&Ok("status: running".to_string()), 1_500) {
        BootStep::Wait(Some(s)) => assert_eq!(s, "waiting for cloud-init for 1s: status: running"),
        other => panic!("{other:?}"),
    }
    assert!(matches!(
        wait.after_report(&Ok("status: running".to_string()), 14_999),
        BootStep::Wait(None)
    ));
    match wait.after_report(&Err("e".to_string()), 15_000) {
        BootStep::Wait(Some(s)) => {
            assert_eq!(s, "waiting for cloud-init for 15s; status check failed: e")
        }
        other => panic!("{other:?}"),
    }
    match wait.after_report(&Ok("status: error".to_string()), 16_000) {
        BootStep::Stop(s) => assert_eq!(
            s,
            "cloud-init reported an error; continuing after SSH readiness: status: error"
        ),
        other => panic!("{other:?}"),
    }
    match wait.after_report(&Ok("status: done".to_string()), 16_000) {
        BootStep::Stop(s) => assert_eq!(s, "cloud-init finished"),
        other => panic!("{other:?}"),
    }
}

#[test]
fn boot_warnings_do_not_stop_a_job() {
    let good = BootOutcome::Exited { success: true, status: "0".to_string() };
    let bad = BootOutcome::Exited { success: false, status: "2".to_string() };
    assert_eq!(boot_warning(&good), None);
    assert_eq!(
        boot_warning(&bad),
        Some("cloud-init status wait exited with 2; continuing after SSH readiness".to_string())
    );
    assert_eq!(
        boot_warning(&BootOutcome::NotLaunched("e".to_string())),
        Some("failed to check cloud-init status: e; continuing".to_string())
    );
    assert_eq!(
        boot_warning(&BootOutcome::TimedOut),
        Some("cloud-init status wait timed out; continuing after SSH readiness".to_string())
    );
}

#[test]
fn useful_lines_of_the_emulator_are_told() {
    assert!(project_qemu_log_line_is_useful("Kernel PANIC"));
    assert!(project_qemu_log_line_is_useful("Ubuntu 24.04"));
    assert!(!project_qemu_log_line_is_useful("hello"));
    assert!(!project_qemu_log_line_is_useful("  "));
    let cursor = ProjectQemuLogCursor::new();
    assert_eq!(cursor.stderr_offset, 0);
    assert_eq!(log_start(10, 4), 4);
    assert_eq!(log_start(3, 4), 3);
    let (at, lines) =
        emit_new_project_qemu_log_lines("qemu.stderr", 3, Some((40, "ok\nssh up\nno\nError x")));
    assert_eq!(at, 40);
    assert_eq!(lines, vec!["[qemu.stderr] ssh up", "[qemu.stderr] Error x"]);
    let (at, lines) = emit_new_project_qemu_log_lines("l", 3, None);
    assert_eq!(at, 3);
    assert!(lines.is_empty());
}

#[test]
fn new_lines_are_told_in_the_order_of_the_logs() {
    let mut cursor = ProjectQemuLogCursor::new();
    let lines = cursor.emit_new(
        Some((7, "Error e")),
        Some((11, "Error o\nno\n")),
        Some((6, "ssh s\n")),
    );
    assert_eq!(
        lines,
        vec!["[qemu.stderr] Error e", "[qemu.stdout] Error o", "[qemu.serial] ssh s"]
    );
    assert_eq!((cursor.stderr_offset, cursor.stdout_offset, cursor.serial_offset), (7, 11, 6));
    let lines = cursor.emit_new(None, None, Some((13, "ssh t")));
    assert_eq!(lines, vec!["[qemu.serial] ssh t"]);
    assert_eq!((cursor.stderr_offset, cursor.stdout_offset, cursor.serial_offset), (7, 11, 13));
}

#[test]
fn guest_is_put_to_work_through_two_shells() {
    let remote = remote_command(&strings(&["cargo", "test", "it's"]));
    assert_eq!(
        remote,
        "if [ -f /home/statix/.cargo/env ]; then . /home/statix/.cargo/env; fi; mkdir -p /home/statix/workspace && tar -xzf /home/statix/workspace.tar.gz -C /home/statix/workspace && cd /home/statix/workspace && exec cargo test 'it'\\''s'"
    );
    let sent = guest_ssh_command(&strings(&["true"]));
    assert!(sent.starts_with("sh -lc 'if [ -f /home/statix/.cargo/env ]; then "));
    assert!(sent.ends_with(" && exec true'"));
}

#[test]
fn uploads_are_judged() {
    match judge_upload(&UploadOutcome::TimedOut, 9, "/w") {
        UploadVerdict::Error(e) => {
            assert_eq!(e, "microvm archive upload timed out after 9 seconds")
        }
        other => panic!("{other:?}"),
    }
    match judge_upload(&UploadOutcome::NotLaunched, 9, "/w") {
        UploadVerdict::Error(e) => assert_eq!(e, "failed to upload workspace archive to microvm"),
        other => panic!("{other:?}"),
    }
    assert!(matches!(
        judge_upload(&UploadOutcome::Exited(output(true, "", "")), 9, "/w"),
        UploadVerdict::Proceed
    ));
    match judge_upload(&UploadOutcome::Exited(output(false, "", "no")), 9, "/w") {
        UploadVerdict::Failed(result, warning) => {
            assert_eq!(result.status, "failed");
            assert_eq!(result.message.as_deref(), Some("/w: no"));
            assert_eq!(warning, "microvm workspace archive upload failed with exit status: 1");
        }
        other => panic!("{other:?}"),
    }
}

#[test]
fn commands_of_the_guest_give_results() {
    let (good, note) = finish_guest_command("/w", &output(true, "out", ""));
    assert_eq!((good.status, note.as_str()), ("succeeded", "microvm command succeeded"));
    let (bad, note) = finish_guest_command("/w", &output(false, "out", "err"));
    assert_eq!(bad.status, "failed");
    assert_eq!(bad.message.as_deref(), Some("/w: stdout:\nout\n\nstderr:\nerr"));
    assert_eq!(
        note,
        "microvm command failed with exit status: 1; output: /w: stdout:\nout\n\nstderr:\nerr"
    );
    assert_eq!(StreamFailure::TimedOut.message(3), "microvm command timed out after 3 seconds");
    assert_eq!(StreamFailure::NotRun.message(3), "failed to execute command inside microvm");
    assert_eq!(StreamFailure::NoStdout.message(3), "failed to capture microvm ssh stdout");
    assert_eq!(StreamFailure::NoStderr.message(3), "failed to capture microvm ssh stderr");
    assert_eq!(
        StreamFailure::StdoutLost.message(3),
        "microvm stdout streaming task join failure"
    );
    assert_eq!(
        StreamFailure::StderrLost.message(3),
        "microvm stderr streaming task join failure"
    );
}

#[test]
fn runs_are_checked() {
    let c = strings(&["x"]);
    assert_eq!(check_run(0, &c), Err(RunError::BadTimeout));
    assert_eq!(check_run(3_601, &c), Err(RunError::BadTimeout));
    assert_eq!(check_run(3_600, &vec![]), Err(RunError::EmptyCommand));
    assert_eq!(check_run(1, &c), Ok(()));
    assert_eq!(RunError::BadTimeout.message(), "run timeoutSeconds must be between 1 and 3600");
    assert_eq!(RunError::EmptyCommand.message(), "run command must contain at least one token");
}

#[test]
fn runner_goes_with_the_environment() {
    assert!(matches!(choose_runner(RunnerEnvironment::Host), ChosenRunner::Host));
    let c = choose_runner(RunnerEnvironment::Container {
        image: "i".to_string(),
        cpu: Some(1),
        memory_mb: None,
    });
    match c {
        ChosenRunner::Container(r) => assert_eq!((r.image.as_str(), r.cpu), ("i", Some(1))),
        _ => panic!("not a container"),
    }
    let m = choose_runner(RunnerEnvironment::Microvm {
        image: "j".to_string(),
        cpu: None,
        memory_mb: Some(2),
    });
    match m {
        ChosenRunner::Microvm(r) => assert_eq!((r.image.as_str(), r.memory_mb), ("j", Some(2))),
        _ => panic!("not a machine"),
    }
}

#[test]
fn outputs_are_summarized() {
    assert_eq!(summarize_texts("/w", " ", ""), "/w: command completed with no output");
    assert_eq!(summarize_texts("/w", " a ", ""), "/w: a");
    assert_eq!(summarize_texts("/w", "", " b "), "/w: b");
    assert_eq!(summarize_texts("/w", "a", "b"), "/w: stdout:\na\n\nstderr:\nb");
    assert_eq!(truncate_output(&"é".repeat(2_001)), format!("{}...", "é".repeat(2_000)));
    assert_eq!(truncate_output(&"é".repeat(2_000)), "é".repeat(2_000));
    assert_eq!(summarize_command_output("/w", &output(true, "x", "")), "/w: x");
    assert_eq!(JobLogStream::Stdout.as_str(), "stdout");
    assert_eq!(JobLogStream::Stderr.as_str(), "stderr");
}

#[test]
fn machine_of_a_job_is_planned_and_shut_down() {
    let runner = MicrovmRunner::new("i".to_string(), Some(4), None);
    let plan = runner.plan("/state", "j", "a");
    assert_eq!(plan.runtime_root, "/state/microvm/j/a");
    assert_eq!(plan.overlay_image, "/state/microvm/j/a/disk.qcow2");
    assert_eq!(plan.private_key, "/state/microvm/j/a/ssh/id_ed25519");
    assert_eq!(plan.public_key, "/state/microvm/j/a/ssh/id_ed25519.pub");
    assert_eq!((plan.cpu, plan.memory_mb, plan.ssh_port), (4, 4096, 2222));
    let (phase, line) = microvm_step_note(MicrovmStep::Launch, &plan, "/b", "/w").unwrap();
    assert_eq!(phase, "microvm.runtime");
    assert_eq!(line, "launched with 4 cpu(s), 4096 MiB memory, ssh port 2222");
    let (phase, line) = microvm_step_note(MicrovmStep::ResolveImage, &plan, "/b", "/w").unwrap();
    assert_eq!((phase, line.as_str()), ("microvm.setup", "using base image /b"));
    assert!(microvm_step_note(MicrovmStep::CreateKeyDir, &plan, "/b", "/w").is_none());

    for broken in 0..14 {
        let mut step = MicrovmStep::CreateRoot;
        let mut launched = false;
        let mut shut_down = false;
        let mut at = 0;
        while step != MicrovmStep::Finished {
            let ok = at != broken;
            launched = launched || (step == MicrovmStep::Launch && ok);
            shut_down = shut_down || step == MicrovmStep::ShutDown;
            step = next_microvm_step(step, ok);
            at += 1;
        }
        assert_eq!(launched, shut_down);
    }
}

#[test]
fn machine_of_a_project_is_planned() {
    let runner = ProjectMicrovmRunner::new(
        "proj".to_string(),
        "prod".to_string(),
        "i".to_string(),
        None,
        Some(1024),
    );
    let plan = runner.plan("/state", "at/1");
    let root = "/state/microvm/projects/proj-prod-a085487a58fb";
    assert_eq!(plan.vm_key, "proj-prod-a085487a58fb");
    assert_eq!(plan.runtime_root, root);
    assert_eq!(plan.backup_image, format!("{root}/disk.disk-v2.qcow2"));
    assert_eq!(plan.generation_path, format!("{root}/disk.generation"));
    assert_eq!(plan.seed_instance_id, "proj-prod-a085487a58fb-disk-v2");
    assert_eq!(plan.workspace_tar, format!("{root}/workspace-at-1.tar.gz"));
    assert_eq!((plan.ssh_port, plan.cpu, plan.memory_mb), (22619, 2, 1024));
}

#[test]
fn a_run_in_the_machine_of_a_project_goes_through_its_steps() {
    let mut run = ProjectRun::new();
    let events = vec![
        ProjectEvent::Answer(false),
        ProjectEvent::Done,
        ProjectEvent::Done,
        ProjectEvent::Disk { exists: true, generation: Some("disk-v1\n".to_string()) },
        ProjectEvent::Done,
        ProjectEvent::Done,
        ProjectEvent::Answer(false),
        ProjectEvent::Done,
        ProjectEvent::Done,
        ProjectEvent::Done,
        ProjectEvent::Answer(false),
        ProjectEvent::Done,
        ProjectEvent::Count(1),
        ProjectEvent::Lease(lease()),
        ProjectEvent::Routes(vec![]),
        ProjectEvent::Done,
        ProjectEvent::Commands { kept: None, desired: "q".to_string() },
        ProjectEvent::Answer(false),
        ProjectEvent::Done,
        ProjectEvent::Count(0),
        ProjectEvent::Pid(9),
        ProjectEvent::Command(Some("q".to_string())),
        ProjectEvent::Done,
        ProjectEvent::Done,
        ProjectEvent::Failed,
        ProjectEvent::Done,
    ];
    let mut steps = vec![];
    for event in &events {
        steps.push(run.step);
        run = run.advance(event);
    }
    assert_eq!(
        steps,
        vec![
            ProjectStep::LookForRoot,
            ProjectStep::CreateRoot,
            ProjectStep::ResolveImage,
            ProjectStep::InspectDisk,
            ProjectStep::StopOldProcess,
            ProjectStep::MoveDisk,
            ProjectStep::LookForDisk,
            ProjectStep::CreateOverlay,
            ProjectStep::WriteGeneration,
            ProjectStep::CreateKeyDir,
            ProjectStep::LookForKeys,
            ProjectStep::GenerateKeys,
            ProjectStep::StopStrays,
            ProjectStep::EnsureNetwork,
            ProjectStep::DescribeRoutes,
            ProjectStep::CreateSeed,
            ProjectStep::CompareCommand,
            ProjectStep::ProbeGuest { limit_ms: 5_000 },
            ProjectStep::StopProcess,
            ProjectStep::StopStraysAgain,
            ProjectStep::Launch,
            ProjectStep::ReadCommand,
            ProjectStep::AwaitReady,
            ProjectStep::ArchiveWorkspace,
            ProjectStep::RunCommand,
            ProjectStep::RemoveArchive,
        ]
    );
    assert_eq!(run.step, ProjectStep::Finished);
    assert!(run.root_was_missing);
}

#[test]
fn machine_is_relaunched_only_where_it_must_be() {
    let at = |step: ProjectStep| ProjectRun { step, root_was_missing: false };
    let same = ProjectEvent::Commands { kept: Some("q".to_string()), desired: "q".to_string() };
    let other = ProjectEvent::Commands { kept: Some("p".to_string()), desired: "q".to_string() };
    let probe = ProjectStep::ProbeGuest { limit_ms: 5_000 };
    assert_eq!(at(ProjectStep::CompareCommand).advance(&same).step, probe);
    assert_eq!(at(ProjectStep::CompareCommand).advance(&other).step, ProjectStep::StopProcess);
    assert_eq!(
        at(probe).advance(&ProjectEvent::Answer(true)).step,
        ProjectStep::AwaitReady
    );
    let current =
        ProjectEvent::Disk { exists: true, generation: Some(" disk-v2\n".to_string()) };
    assert_eq!(at(ProjectStep::InspectDisk).advance(&current).step, ProjectStep::WriteGeneration);
    assert_eq!(
        at(ProjectStep::LookForDisk).advance(&ProjectEvent::Answer(true)).step,
        ProjectStep::GrowOverlay
    );
    assert_eq!(
        at(ProjectStep::LookForKeys).advance(&ProjectEvent::Answer(true)).step,
        ProjectStep::EnsureNetwork
    );
    assert_eq!(at(ProjectStep::Launch).advance(&ProjectEvent::Failed).step, ProjectStep::Finished);
    assert_eq!(
        at(ProjectStep::RunCommand).advance(&ProjectEvent::Failed).step,
        ProjectStep::RemoveArchive
    );
}

#[test]
fn owner_of_the_job_is_told() {
    let runner = ProjectMicrovmRunner::new(
        "proj".to_string(),
        "prod".to_string(),
        "i".to_string(),
        None,
        None,
    );
    let plan = runner.plan_for_key("/s", "a", "key", 22300);
    assert_eq!(
        project_messages(&plan, ProjectStep::CreateRoot, &ProjectEvent::Done),
        vec!["preparing project microvm key at /s/microvm/projects/key"]
    );
    assert_eq!(
        project_messages(&plan, ProjectStep::MoveDisk, &ProjectEvent::Done),
        vec!["backed up previous project microvm disk to /s/microvm/projects/key/disk.disk-v2.qcow2; creating disk-v2 disk"]
    );
    assert_eq!(
        project_messages(&plan, ProjectStep::StopStrays, &ProjectEvent::Count(2)),
        vec!["stopped 2 orphaned project microvm process(es) on ssh port 22300"]
    );
    assert!(project_messages(&plan, ProjectStep::StopStrays, &ProjectEvent::Count(0)).is_empty());
    assert_eq!(
        project_messages(&plan, ProjectStep::EnsureNetwork, &ProjectEvent::Lease(lease())),
        vec!["project microvm network: vm_ip=172.31.5.6/16 tap=stx1 mac=02:53:00:00:00:01 ssh=127.0.0.1:22300"]
    );
    assert_eq!(
        project_messages(&plan, ProjectStep::DescribeRoutes, &ProjectEvent::Routes(vec![])),
        vec!["project microvm routes: no exposures requested"]
    );
    assert_eq!(
        project_messages(
            &plan,
            ProjectStep::DescribeRoutes,
            &ProjectEvent::Routes(strings(&["a", "b"]))
        ),
        vec!["project microvm route: a", "project microvm route: b"]
    );
    assert_eq!(
        project_messages(
            &plan,
            ProjectStep::CompareCommand,
            &ProjectEvent::Commands { kept: Some("a".to_string()), desired: "b".to_string() }
        ),
        vec!["project microvm qemu command changed; relaunching runtime"]
    );
    assert_eq!(
        project_messages(&plan, ProjectStep::Launch, &ProjectEvent::Pid(7)),
        vec!["launched project microvm pid 7 with 2 cpu(s), 4096 MiB memory, ssh port 22300"]
    );
    assert_eq!(
        project_messages(
            &plan,
            ProjectStep::ReadCommand,
            &ProjectEvent::Command(Some("q".to_string()))
        ),
        vec!["project microvm qemu command: q"]
    );
    assert_eq!(
        project_messages(&plan, ProjectStep::AwaitReady, &ProjectEvent::Done),
        vec!["project microvm guest is ready"]
    );
    assert!(project_messages(&plan, ProjectStep::CreateRoot, &ProjectEvent::Failed).is_empty());
}

#[test]
fn service_of_a_project_is_stopped() {
    let plan = stop_plan("/s", "proj", "prod");
    assert_eq!(plan.vm_key, "proj-prod-a085487a58fb");
    assert_eq!(plan.ssh_port, 22619);
    assert_eq!(
        plan.private_key,
        "/s/microvm/projects/proj-prod-a085487a58fb/ssh/id_ed25519"
    );
    assert_eq!(plan.unit_name, "statix-project-proj-prod.service");
    assert_eq!(
        plan.disable_command,
        "sudo systemctl disable --now statix-project-proj-prod.service"
    );
    assert_eq!(plan.poweroff_command, "sudo systemctl poweroff");

    let (step, result) = next_stop_step(&plan, StopStep::LookForKey, &StopEvent::Answer(false));
    assert_eq!(step, StopStep::Finished);
    assert_eq!(
        result.unwrap().message.as_deref(),
        Some("project microvm proj-prod-a085487a58fb has no SSH key; nothing to stop")
    );
    let (step, result) = next_stop_step(&plan, StopStep::LookForKey, &StopEvent::Answer(true));
    assert_eq!(step, StopStep::ProbeGuest { limit_ms: 5_000 });
    assert!(result.is_none());
    let (disable, _) = next_stop_step(&plan, step, &StopEvent::Answer(true));
    assert_eq!(disable, StopStep::DisableUnit { limit_ms: 30_000 });
    let (step, _) = next_stop_step(&plan, step, &StopEvent::Answer(false));
    assert_eq!(step, StopStep::RemovePid);
    let (step, result) = next_stop_step(&plan, StopStep::RemovePid, &StopEvent::Done);
    assert_eq!(step, StopStep::Finished);
    assert_eq!(
        result.unwrap().message.as_deref(),
        Some("project microvm proj-prod-a085487a58fb is not running")
    );
    let (step, result) =
        next_stop_step(&plan, disable, &StopEvent::Output(output(false, "", "no")));
    assert_eq!(step, StopStep::Finished);
    let failed = result.unwrap();
    assert_eq!(failed.status, "failed");
    assert_eq!(
        failed.message.as_deref(),
        Some("/s/microvm/projects/proj-prod-a085487a58fb: no")
    );
    let (mut step, _) =
        next_stop_step(&plan, disable, &StopEvent::Output(output(true, "", "")));
    let mut seen = vec![];
    let mut last = None;
    while step != StopStep::Finished {
        seen.push(step);
        let (next, result) = next_stop_step(&plan, step, &StopEvent::Failed);
        step = next;
        last = result;
    }
    assert_eq!(
        seen,
        vec![
            StopStep::PowerOff { limit_ms: 30_000 },
            StopStep::Pause { ms: 2_000 },
            StopStep::StopProcess,
            StopStep::StopNetwork { reserve_ip: false },
        ]
    );
    assert_eq!(
        last.unwrap().message.as_deref(),
        Some("stopped statix-project-proj-prod.service and project microvm proj-prod-a085487a58fb")
    );
    let (step, result) = next_stop_step(&plan, disable, &StopEvent::Failed);
    assert_eq!(step, StopStep::Finished);
    assert!(result.is_none());
}

#[test]
fn commands_for_a_guest_carry_their_limits() {
    let probe = probe_command("/k", 22_000, 5_000);
    assert_eq!((probe.program, probe.limit_ms), ("ssh", 5_000));
    assert_eq!(probe.args, probe_args("/k", 22_000));
    let wait = boot_wait_command("/k", 22_000, 30_000);
    assert_eq!((wait.program, wait.limit_ms), ("ssh", 30_000));
    assert_eq!(wait.args, cloud_init_wait_args("/k", 22_000));
    let status = boot_status_command("/k", 22_000, 10_000);
    assert_eq!((status.program, status.limit_ms), ("ssh", 10_000));
    assert_eq!(status.args, cloud_init_status_args("/k", 22_000));
    let ssh = ssh_command("/k", 22_000, "true", 30_000);
    assert_eq!((ssh.program, ssh.limit_ms), ("ssh", 30_000));
    assert_eq!(ssh.args, ssh_command_args("/k", 22_000, 5, "true"));
    let scp = upload_command("/k", 22_000, "/t", 60_000);
    assert_eq!((scp.program, scp.limit_ms), ("scp", 60_000));
    assert_eq!(scp.args, upload_args("/k", 22_000, "/t"));
    assert_eq!(ssh_timeout_message(30_000), "microvm ssh command timed out after 30 seconds");
}

#[test]
fn status_of_the_first_boot_is_judged() {
    let ended = StatusOutcome::Exited(output(false, "status: running\n", ""));
    assert_eq!(judge_status(&ended), Ok("status: running\n".to_string()));
    assert_eq!(
        judge_status(&StatusOutcome::NotLaunched),
        Err("failed to check cloud-init status".to_string())
    );
    assert_eq!(
        judge_status(&StatusOutcome::TimedOut),
        Err("cloud-init status check timed out".to_string())
    );
}

#[test]
fn tools_that_fail_are_told_of() {
    let refused = |text: &str| Err(text.to_string());
    assert_eq!(judge_overlay(true), Ok(()));
    assert_eq!(judge_overlay(false), refused("qemu-img failed to create overlay disk"));
    assert_eq!(judge_keypair(true, true), Ok(()));
    assert_eq!(judge_keypair(true, false), refused("ssh-keygen did not create a public key"));
    assert_eq!(judge_keypair(false, true), refused("ssh-keygen failed to create guest keypair"));
    assert_eq!(judge_archive(true, "microvm"), Ok(()));
    assert_eq!(
        judge_archive(false, "microvm"),
        refused("failed to archive workspace for microvm execution")
    );
    assert_eq!(judge_seed(true), Ok(()));
    assert_eq!(judge_seed(false), refused("cloud-localds failed to create the seed image"));
    assert_eq!(image_cache_dir("/r"), "/r/images");
}
