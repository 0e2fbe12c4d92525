use statix_agent::jobs::runners::container::dns::{
    container_dns_config, dedupe_nameservers, guest_resolv_conf_command,
    parse_configured_nameservers, parse_resolv_conf_nameservers, ContainerDnsConfig,
};
use statix_agent::jobs::runners::container::failure::{
    create_failure, guest_dns_failure, guest_network_failure, lxc_log_excerpt,
    lxc_start_failure_message, lxc_start_failure_message_with_host_context,
    proc_mount_uses_noatime, start_failure, summarize_raw_command_output, summarize_raw_texts,
    tail_for_log, wait_failure,
};
use statix_agent::jobs::runners::container::image::{
    container_name, normalize_release, truncate_for_name, ContainerImageError, LxcImage,
};
use statix_agent::jobs::runners::container::lifecycle::{
    attach_timeout, finish_container_command, finish_setup, guest_command, setup_command,
    ContainerEvent, ContainerStep,
};
use statix_agent::jobs::runners::container::lxc::{
    attach_args, attach_command, container_paths, create_args, destroy_args, enforce_lxc_limits, env_path,
    lxc_arch, lxc_process_home, lxc_storage_path, lxc_variables, start_args, stop_args,
    traversable_mode, wait_args, write_job_lxc_config,
};
use statix_agent::jobs::runners::container::network::{
    guest_ipv4_address, guest_network_command, lxc_bridge_name, parse_lxc_bridge_network,
    LxcBridgeNetwork,
};
use statix_agent::jobs::runners::container::runner;
use statix_agent::jobs::runners::container::ContainerRunner;
use statix_agent::netaddr::{is_loopback_or_unspecified_address, Ipv4Addr};
use statix_agent::process::CommandOutput;
use statix_agent::shell::shell_join;

fn output(success: bool, stdout: &str, stderr: &str) -> CommandOutput {
    CommandOutput {
        success,
        status: if success { "exit status: 0".to_string() } else { "exit status: 1".to_string() },
        stdout: stdout.as_bytes().to_vec(),
        stderr: stderr.as_bytes().to_vec(),
    }
}

fn strings(v: &[&str]) -> Vec<String> {
    v.iter().map(|s| s.to_string()).collect()
}

#[test]
fn parses_ubuntu_version_alias() {
    let image = LxcImage::parse("ubuntu:24.04").expect("image should parse");
    assert_eq!(image.distribution, "ubuntu");
    assert_eq!(image.release, "noble");
}

#[test]
fn parses_named_release_without_alias() {
    let image = LxcImage::parse("debian:bookworm").expect("image should parse");
    assert_eq!(image.distribution, "debian");
    assert_eq!(image.release, "bookworm");
}

#[test]
fn rejects_images_without_release() {
    assert!(LxcImage::parse("ubuntu").is_err());
}

#[test]
fn sanitizes_container_names() {
    assert_eq!(container_name("01KQ9/ABC_def"), "statix-01kq9-abc-def");
}

#[test]
fn writes_job_lxc_config_without_limits_by_default() {
    let mut config = String::new();
    write_job_lxc_config(&mut config, 2, 4096, false);

    assert!(!config.contains("lxc.cgroup2.memory.max"));
    assert!(!config.contains("lxc.cgroup2.cpu.max"));
    assert!(config.contains("cgroup limits requested by Statix are not written by default"));
    assert!(config.contains("lxc.apparmor.profile = unconfined"));
}

#[test]
fn writes_job_lxc_config_with_opt_in_limits() {
    let mut config = String::new();
    write_job_lxc_config(&mut config, 2, 4096, true);

    assert!(config.contains("lxc.cgroup2.memory.max = 4294967296"));
    assert!(config.contains("lxc.cgroup2.cpu.max = 200000 100000"));
    assert!(config.contains("lxc.apparmor.profile = unconfined"));
}

#[test]
fn quotes_shell_arguments() {
    assert_eq!(
        shell_join(&vec!["cargo".to_string(), "test".to_string(), "a b".to_string()]),
        "cargo test 'a b'"
    );
}

#[test]
fn truncates_lxc_logs_from_the_tail() {
    assert_eq!(tail_for_log("abcdef", 3), "...def");
    assert_eq!(tail_for_log("abc", 3), "abc");
    assert_eq!(tail_for_log(&tail_for_log("abcdef", 3), 3), "...def");
}

#[test]
fn adds_hint_for_lxc_proc_mount_denial_under_package_rootfs() {
    let log = "Operation not permitted - Failed to mount \"proc\" onto \"/usr/lib/x86_64-linux-gnu/lxc/rootfs/proc\"";
    let message = lxc_start_failure_message_with_host_context(log, Some(false));

    assert!(message.contains(log));
    assert!(message.contains("ReadWritePaths"));
    assert!(message.contains("/usr/lib/*/lxc/rootfs"));
    assert!(message.contains("ProtectKernelTunables"));
    assert!(message.contains("findmnt -no OPTIONS /proc"));
}

#[test]
fn adds_noatime_hint_when_proc_parent_mount_uses_noatime() {
    let log = "Operation not permitted - Failed to mount \"proc\" onto \"/usr/lib/x86_64-linux-gnu/lxc/rootfs/proc\"";
    let message = lxc_start_failure_message_with_host_context(log, Some(true));

    assert!(message.contains("noatime"));
    assert!(message.contains("relatime"));
}

#[test]
fn adds_hint_for_read_only_lxc_user_nic_lock_path() {
    let log = "lxc-user-nic failed to configure requested network: open_and_lock - Read-only file system - Failed to open \"/run/lxc/nics\"";
    let message = lxc_start_failure_message(log, None);

    assert!(message.contains(log));
    assert!(message.contains("ReadWritePaths=/run/lxc"));
}

#[test]
fn parses_usable_nameservers_from_resolv_conf() {
    let nameservers = parse_resolv_conf_nameservers(
        "
            nameserver 127.0.0.53
            nameserver 0.0.0.0
            nameserver 192.0.2.53
            nameserver 2001:db8::53 # comment
            nameserver 192.0.2.53
            ",
    );

    assert_eq!(nameservers, vec!["192.0.2.53", "2001:db8::53"]);
}

#[test]
fn parses_configured_nameservers_from_csv() {
    let nameservers = parse_configured_nameservers(" 1.1.1.1, 8.8.8.8,1.1.1.1 ");

    assert_eq!(nameservers, vec!["1.1.1.1", "8.8.8.8"]);
}

#[test]
fn parses_lxc_bridge_network_from_ip_output() {
    let network = parse_lxc_bridge_network(
        "3: lxcbr0    inet 10.0.3.1/24 brd 10.0.3.255 scope global lxcbr0",
    )
    .expect("bridge network should parse");

    assert_eq!(network.gateway, Ipv4Addr::new(10, 0, 3, 1));
    assert_eq!(network.prefix_len, 24);
}

#[test]
fn builds_guest_network_command() {
    let network = LxcBridgeNetwork {
        gateway: Ipv4Addr::new(10, 0, 3, 1),
        prefix_len: 24,
    };
    let command = guest_network_command(&network, Ipv4Addr::new(10, 0, 3, 42));

    assert!(command.contains("ip -4 route show default"));
    assert!(command.contains("ip addr add 10.0.3.42/24"));
    assert!(command.contains("ip route replace default via 10.0.3.1"));
}

#[test]
fn builds_guest_resolv_conf_command_with_default_gateway_first() {
    let command = guest_resolv_conf_command(&ContainerDnsConfig {
        nameservers: vec!["192.0.2.53".to_string(), "2001:db8::53".to_string()],
        include_default_gateway: true,
    });

    assert_eq!(
        command,
        "gateway=$(ip -4 route show default 2>/dev/null | awk '{print $3; exit}'); rm -f /etc/resolv.conf && { printf '%s\\n' '# Generated by statix-agent for job container DNS'; if [ -n \"$gateway\" ]; then printf '%s\\n' \"nameserver $gateway\"; fi; printf '%s\\n' 'nameserver 192.0.2.53' 'nameserver 2001:db8::53' 'options timeout:2 attempts:2'; } > /etc/resolv.conf"
    );
}

#[test]
fn builds_explicit_guest_resolv_conf_command_without_default_gateway() {
    let command = guest_resolv_conf_command(&ContainerDnsConfig {
        nameservers: vec!["1.1.1.1".to_string(), "8.8.8.8".to_string()],
        include_default_gateway: false,
    });

    assert_eq!(
        command,
        "rm -f /etc/resolv.conf && printf '%s\\n' '# Generated by statix-agent for job container DNS' 'nameserver 1.1.1.1' 'nameserver 8.8.8.8' 'options timeout:2 attempts:2' > /etc/resolv.conf"
    );
}

#[test]
fn image_errors_are_told_apart() {
    assert_eq!(LxcImage::parse("  ").unwrap_err(), ContainerImageError::Empty);
    assert_eq!(LxcImage::parse("ubuntu").unwrap_err(), ContainerImageError::Malformed);
    assert_eq!(LxcImage::parse(":24.04").unwrap_err(), ContainerImageError::Malformed);
    assert_eq!(LxcImage::parse("ubuntu: ").unwrap_err(), ContainerImageError::Malformed);
    assert_eq!(ContainerImageError::Empty.message(), "container image must not be empty");
    assert_eq!(
        ContainerImageError::Malformed.message(),
        "container image must use distribution:release format, for example ubuntu:24.04"
    );
}

#[test]
fn image_is_split_at_its_first_colon() {
    let image = LxcImage::parse(" alpine : edge:x ").unwrap();
    assert_eq!(image.distribution, "alpine");
    assert_eq!(image.release, "edge:x");
}

#[test]
fn releases_of_ubuntu_have_names() {
    assert_eq!(normalize_release("ubuntu", "22.04"), "jammy");
    assert_eq!(normalize_release("ubuntu", "20.04"), "focal");
    assert_eq!(normalize_release("ubuntu", "18.04"), "18.04");
    assert_eq!(normalize_release("debian", "24.04"), "24.04");
}

#[test]
fn container_name_is_short_and_never_empty() {
    assert_eq!(container_name("///"), "statix-job");
    assert_eq!(container_name(""), "statix-job");
    let long = container_name(&"A".repeat(100));
    assert_eq!(long, format!("statix-{}", "a".repeat(56)));
    assert_eq!(truncate_for_name("abcdef", 4), "abcd");
}

#[test]
fn job_config_is_written_behind_what_is_there() {
    let mut config = "lxc.a = b\n".to_string();
    write_job_lxc_config(&mut config, 1, 512, true);
    assert_eq!(
        config,
        "lxc.a = b\n\n# Statix job runtime config\nlxc.cgroup2.memory.max = 536870912\nlxc.cgroup2.cpu.max = 100000 100000\nlxc.apparmor.profile = unconfined\n"
    );
}

#[test]
fn limits_are_enforced_only_where_asked() {
    assert!(!enforce_lxc_limits(None));
    assert!(!enforce_lxc_limits(Some("0")));
    assert!(enforce_lxc_limits(Some(" Yes ")));
}

#[test]
fn bridge_network_must_leave_room() {
    assert!(parse_lxc_bridge_network("inet 10.0.3.1/31").is_none());
    assert!(parse_lxc_bridge_network("inet 10.0.3.1/30").is_some());
    assert!(parse_lxc_bridge_network("inet 10.0.3.256/24").is_none());
    assert!(parse_lxc_bridge_network("inet a/b 10.0.3.1/24").is_none());
    assert!(parse_lxc_bridge_network("nothing here").is_none());
    assert!(parse_lxc_bridge_network("inet 10.0.3.1/300").is_none());
}

#[test]
fn guest_address_follows_the_name_and_avoids_the_gateway() {
    let network = LxcBridgeNetwork { gateway: Ipv4Addr::new(10, 0, 3, 1), prefix_len: 24 };
    assert_eq!(
        guest_ipv4_address(&network, "statix-01kq9-abc-def"),
        Ipv4Addr::new(10, 0, 3, 105)
    );
    let taken = LxcBridgeNetwork { gateway: Ipv4Addr::new(10, 0, 3, 105), prefix_len: 24 };
    assert_eq!(
        guest_ipv4_address(&taken, "statix-01kq9-abc-def"),
        Ipv4Addr::new(10, 0, 3, 106)
    );
    assert_eq!(guest_ipv4_address(&network, ""), Ipv4Addr::new(10, 0, 3, 10));
}

#[test]
fn bridge_has_a_default_name() {
    assert_eq!(lxc_bridge_name(None), "lxcbr0");
    assert_eq!(lxc_bridge_name(Some("  ")), "lxcbr0");
    assert_eq!(lxc_bridge_name(Some(" br7 ")), "br7");
}

#[test]
fn dns_comes_from_the_setting_before_the_host() {
    let set = container_dns_config(Some("9.9.9.9"), Some("nameserver 1.1.1.1"), None);
    assert_eq!(set.nameservers, vec!["9.9.9.9"]);
    assert!(!set.include_default_gateway);
    assert_eq!(set.display_nameservers(), "9.9.9.9");

    let first = container_dns_config(
        Some(" , "),
        Some("nameserver 1.1.1.1"),
        Some("nameserver 8.8.8.8"),
    );
    assert_eq!(first.nameservers, vec!["1.1.1.1"]);
    assert!(first.include_default_gateway);
    assert_eq!(first.display_nameservers(), "guest default gateway, 1.1.1.1");

    let second = container_dns_config(
        None,
        Some("nameserver 127.0.0.53"),
        Some("nameserver 8.8.8.8\nnameserver 8.8.4.4"),
    );
    assert_eq!(second.nameservers, vec!["8.8.8.8", "8.8.4.4"]);

    let none = container_dns_config(None, None, None);
    assert!(none.nameservers.is_empty());
    assert!(none.include_default_gateway);
    assert!(none.is_usable());
    assert!(!ContainerDnsConfig { nameservers: vec![], include_default_gateway: false }.is_usable());
}

#[test]
fn dedupe_keeps_the_first_of_each() {
    let v = strings(&["b", "a", "b", "c", "a"]);
    let once = dedupe_nameservers(&v);
    assert_eq!(once, vec!["b", "a", "c"]);
    let first = |x: &String| v.iter().position(|y| y == x);
    assert!(once.windows(2).all(|w| first(&w[0]) < first(&w[1])));
    assert_eq!(dedupe_nameservers(&once), once);
}

#[test]
fn loopback_addresses_are_known() {
    for local in ["127.0.0.1", "127.9.9.9", "0.0.0.0", "::1", "::", "0:0:0:0:0:0:0:1"] {
        assert!(is_loopback_or_unspecified_address(local), "{local}");
    }
    for other in ["1.1.1.1", "2001:db8::1", "::2", "localhost", "127.0.0", "::ffff:127.0.0.1"] {
        assert!(!is_loopback_or_unspecified_address(other), "{other}");
    }
}

#[test]
fn log_excerpt_says_why_there_is_none() {
    assert_eq!(lxc_log_excerpt("/l", &Ok("  \n".to_string())), "lxc log /l was empty");
    assert_eq!(
        lxc_log_excerpt("/l", &Err("gone".to_string())),
        "failed to read lxc log /l: gone"
    );
    assert_eq!(lxc_log_excerpt("/l", &Ok(" text \n".to_string())), "text");
    let long = "x".repeat(4_500);
    assert_eq!(lxc_log_excerpt("/l", &Ok(long)), format!("...{}", "x".repeat(4_000)));
}

#[test]
fn mount_table_is_read_for_noatime() {
    let plain = "22 1 0:20 / /proc rw,nosuid,relatime shared:1 - proc proc rw";
    let noatime = "22 1 0:20 / /proc rw,noatime shared:1 - proc proc rw";
    let other = "23 1 0:21 / /sys rw,noatime - sysfs sysfs rw";
    assert_eq!(proc_mount_uses_noatime(Some(plain)), Some(false));
    assert_eq!(proc_mount_uses_noatime(Some(noatime)), Some(true));
    assert_eq!(proc_mount_uses_noatime(Some(other)), None);
    assert_eq!(proc_mount_uses_noatime(None), None);
    let both = format!("{plain}\n{noatime}");
    assert_eq!(proc_mount_uses_noatime(Some(&both)), Some(true));
}

#[test]
fn hints_depend_on_the_log() {
    assert_eq!(lxc_start_failure_message("plain", None), "plain");
    let log = "Operation not permitted - Failed to mount \"proc\" onto \"/usr/lib/a/lxc/rootfs/proc\"";
    let unknown = lxc_start_failure_message(log, None);
    assert!(unknown.ends_with(
        "Also check the host /proc mount options; unprivileged LXC can fail when /proc is mounted with noatime instead of relatime."
    ));
    let seen = lxc_start_failure_message(log, Some("22 1 0:20 / /proc rw,noatime - proc proc rw"));
    assert!(seen.contains("Remount /proc with relatime"));
}

#[test]
fn failures_of_steps_name_the_container() {
    assert_eq!(create_failure("c", "s", "e"), "lxc-create failed for container c with s: e");
    assert_eq!(start_failure("c", "s", "e", None), "lxc-start failed for container c with s: e");
    assert_eq!(wait_failure("c", "s", "e"), "lxc-wait did not observe container c running: s: e");
    let o = output(false, "out", "err");
    assert_eq!(
        guest_network_failure(&o),
        "failed to configure lxc container network with exit status: 1: stdout:\nout\n\nstderr:\nerr"
    );
    assert_eq!(
        guest_dns_failure(&o),
        "failed to configure lxc container DNS with exit status: 1: stdout:\nout\n\nstderr:\nerr"
    );
}

#[test]
fn raw_outputs_are_summarized() {
    assert_eq!(summarize_raw_texts(" ", "\n"), "no output");
    assert_eq!(summarize_raw_texts(" a ", ""), "stdout:\na");
    assert_eq!(summarize_raw_texts("", " b"), "stderr:\nb");
    let broken = CommandOutput {
        success: true,
        status: String::new(),
        stdout: vec![b'a', 0xff, b'b'],
        stderr: vec![],
    };
    assert_eq!(summarize_raw_command_output(&broken), "stdout:\na\u{fffd}b");
}

#[test]
fn lxc_places_follow_the_environment() {
    assert_eq!(env_path(Some("  ")), None);
    assert_eq!(env_path(Some(" /x ")), Some("/x".to_string()));
    assert_eq!(lxc_process_home(Some("/a"), Some("/b")), Some("/a/lxc".to_string()));
    assert_eq!(lxc_process_home(Some(" "), Some("/b/")), Some("/b/lxc".to_string()));
    assert_eq!(lxc_process_home(None, None), None);
    assert_eq!(lxc_storage_path(Some("/a/lxc")), "/a/lxc/containers");
    assert_eq!(lxc_storage_path(None), "/var/lib/lxc");
    assert!(lxc_variables(None).is_empty());
    assert_eq!(
        lxc_variables(Some("/h")),
        vec![
            ("HOME", "/h".to_string()),
            ("XDG_CACHE_HOME", "/h/.cache".to_string()),
            ("XDG_CONFIG_HOME", "/h/.config".to_string()),
            ("XDG_DATA_HOME", "/h/.local/share".to_string()),
        ]
    );
}

#[test]
fn directories_are_made_traversable() {
    assert_eq!(traversable_mode(0o700), Some(0o711));
    assert_eq!(traversable_mode(0o40755), None);
    assert_eq!(traversable_mode(0o40600), Some(0o40711));
}

#[test]
fn lxc_commands_have_their_arguments() {
    let paths = container_paths("/s", "c");
    assert_eq!(paths.rootfs, "/s/c/rootfs");
    assert_eq!(paths.config, "/s/c/config");
    assert_eq!(paths.archive, "/s/c/rootfs/var/lib/statix-agent/statix-workspace.tar.gz");
    let image = LxcImage::parse("ubuntu:24.04").unwrap();
    assert_eq!(
        create_args("c", &paths, &image, "x86_64"),
        strings(&[
            "-n", "c", "-P", "/s", "--logfile", "/s/c.create.log", "--logpriority", "DEBUG", "-t",
            "download", "--", "-d", "ubuntu", "-r", "noble", "-a", "amd64",
        ])
    );
    assert_eq!(
        start_args("c", &paths),
        strings(&[
            "-n", "c", "-P", "/s", "--logfile", "/s/c/statix-lxc.log", "--logpriority", "DEBUG",
            "-d",
        ])
    );
    assert_eq!(
        wait_args("c", "/s"),
        strings(&["-n", "c", "-P", "/s", "-s", "RUNNING", "-t", "30"])
    );
    assert_eq!(
        attach_args("c", "/s", "ls"),
        strings(&["-n", "c", "-P", "/s", "--", "sh", "-lc", "ls"])
    );
    let timed = attach_command("c", "/s", "ls", 90);
    assert_eq!((timed.program, timed.limit_ms), ("lxc-attach", 90_000));
    assert_eq!(timed.args, attach_args("c", "/s", "ls"));
    assert_eq!(stop_args("c", "/s"), strings(&["-n", "c", "-P", "/s", "--kill"]));
    assert_eq!(destroy_args("c", "/s"), strings(&["-n", "c", "-P", "/s"]));
    assert_eq!(lxc_arch("aarch64"), "arm64");
    assert_eq!(lxc_arch("riscv64"), "riscv64");
}

#[test]
fn container_is_planned_from_its_image() {
    let runner = ContainerRunner::new("ubuntu:24.04".to_string(), None, Some(512));
    let plan = runner.plan("/state", "job", "A1").unwrap();
    assert_eq!(plan.image.release, "noble");
    assert_eq!(plan.name, "statix-a1");
    assert_eq!(plan.cpu, 2);
    assert_eq!(plan.memory_mb, 512);
    assert_eq!(plan.runtime_root, "/state/container/job/A1");
    assert_eq!(plan.workspace_tar, "/state/container/job/A1/statix-workspace.tar.gz");
    let other = runner::ContainerRunner::new(" ".to_string(), Some(3), None);
    assert_eq!(other.plan("/state", "job", "A1").unwrap_err(), ContainerImageError::Empty);
}

#[test]
fn made_container_is_always_destroyed() {
    let runner = ContainerRunner::new("ubuntu:24.04".to_string(), None, None);
    for broken in 0..12 {
        let mut step = ContainerStep::CreateRoot;
        let mut made = false;
        let mut destroyed = false;
        let mut at = 0;
        while step != ContainerStep::Finished {
            let event = if at == broken { ContainerEvent::Failed } else { ContainerEvent::Done };
            if step == ContainerStep::Create && event == ContainerEvent::Done {
                made = true;
            }
            if step == ContainerStep::Destroy {
                destroyed = true;
            }
            step = runner.next_step(step, event);
            at += 1;
        }
        assert_eq!(made, destroyed);
    }
}

#[test]
fn runners_bring_the_workspace_in_at_different_times() {
    let first = ContainerRunner::new("ubuntu:24.04".to_string(), None, None);
    let second = runner::ContainerRunner::new("ubuntu:24.04".to_string(), None, None);
    let done = ContainerEvent::Done;
    assert_eq!(first.next_step(ContainerStep::ConfigureDns, done), ContainerStep::CopyArchive);
    assert_eq!(first.next_step(ContainerStep::CopyArchive, done), ContainerStep::PrepareGuest);
    assert_eq!(first.next_step(ContainerStep::PrepareGuest, done), ContainerStep::RunCommand);
    assert_eq!(second.next_step(ContainerStep::ConfigureDns, done), ContainerStep::PrepareGuest);
    assert_eq!(second.next_step(ContainerStep::PrepareGuest, done), ContainerStep::CopyArchive);
    assert_eq!(second.next_step(ContainerStep::CopyArchive, done), ContainerStep::RunCommand);
    assert_eq!(
        second.next_step(ContainerStep::PrepareGuest, ContainerEvent::Refused),
        ContainerStep::Destroy
    );
}

#[test]
fn guest_of_a_container_is_put_to_work() {
    assert_eq!(
        guest_command(&strings(&["echo", "a b"])),
        "rm -rf /workspace && mkdir -p /workspace && tar -xzf /var/lib/statix-agent/statix-workspace.tar.gz -C /workspace && cd /workspace && exec echo 'a b'"
    );
    assert!(setup_command().starts_with("echo '[statix-agent] guest network diagnostics:'; "));
    assert!(finish_setup("/w", &output(true, "", "")).is_none());
    let (result, note) = finish_setup("/w", &output(false, "", "no net")).unwrap();
    assert_eq!(result.status, "failed");
    assert_eq!(result.message.as_deref(), Some("/w: no net"));
    assert_eq!(note, "lxc container setup failed with exit status: 1; output: /w: no net");
    let (good, line) = finish_container_command("/w", &output(true, "fine", ""));
    assert_eq!(good.status, "succeeded");
    assert_eq!(good.message.as_deref(), Some("/w: fine"));
    assert_eq!(line, "lxc container command succeeded");
    let (bad, line) = finish_container_command("/w", &output(false, "", "err"));
    assert_eq!(bad.status, "failed");
    assert_eq!(line, "lxc container command failed with exit status: 1; output: /w: err");
    assert_eq!(attach_timeout(7), "lxc command timed out after 7 seconds");
}
