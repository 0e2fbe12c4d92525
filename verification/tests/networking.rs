use std::collections::{BTreeMap, BTreeSet};

use statix_agent::netaddr::Ipv4Addr;
use statix_agent::networking::commands::{
    bridge_address_plan, bridge_link_plan, command_failure, command_output, delete_link_args,
    failure_message, show_address_args, show_link_args, tap_plan,
};
use statix_agent::networking::error::NetworkError;
use statix_agent::networking::exposure::{
    default_project_exposure_allowed, default_visibility, evaluate_exposure, exposure_bind,
    proxy_routes, ExposureRequest,
};
use statix_agent::networking::naming::{
    allocate_vm_ip, find_open_address, mac_address_for, project_key, project_naming, tap_name_for,
};
use statix_agent::networking::ports::{
    allocate_managed_port_for, blocked_ports, busy_ports, collect_port_token, firewall_ports,
    listening_ports, parse_firewall_ports, parse_port, release_unused_host_ports,
};
use statix_agent::networking::proxy::{next_proxy_step, proxy_args, ProxyOutcome, ProxyStep};
use statix_agent::networking::state::{
    initial_state, is_before, proxy_dir, state_path, AgentNetworkState, BridgeState,
    ExposureState, ExposureStatus, ExposureVisibility, HostPortAllocation, ProjectNetworkState,
    ProjectSlot, RuleOwner,
};
use statix_agent::networking::{
    allocate_managed_port, ensure_project_network, project_route_descriptions,
    reconcile_on_start, stop_project_network,
};
use statix_agent::process::CommandOutput;

fn request(visibility: ExposureVisibility, host: Option<&str>, port: u16) -> ExposureRequest {
    ExposureRequest {
        host: host.map(|h| h.to_string()),
        target_port: port,
        visibility,
        workspace_public_http_allowed: true,
        node_ingress_allowed: true,
        project_exposure_allowed: true,
    }
}

fn private(port: u16) -> ExposureRequest {
    request(ExposureVisibility::Private, None, port)
}

fn project(id: &str, ip: Ipv4Addr, exposures: Vec<ExposureState>) -> ProjectNetworkState {
    ProjectNetworkState {
        project_id: id.to_string(),
        environment: "prod".to_string(),
        vm_id: "vm".to_string(),
        vm_ip: ip,
        tap_name: "stx0".to_string(),
        mac_address: "02:53:00:00:00:00".to_string(),
        reserved: false,
        exposures,
    }
}

fn allocation(key: &str, port: u16, target_port: u16) -> HostPortAllocation {
    HostPortAllocation {
        project_key: key.to_string(),
        port,
        protocol: "tcp".to_string(),
        target_port,
        owner: RuleOwner::statix(),
    }
}

fn exposure(visibility: ExposureVisibility, status: ExposureStatus, port: u16) -> ExposureState {
    ExposureState {
        host: "h.example".to_string(),
        target_port: port,
        host_port: None,
        visibility,
        status,
        reason: None,
        owner: RuleOwner::statix(),
    }
}

fn lists(v: Vec<Vec<String>>) -> Vec<String> {
    v.into_iter().map(|a| a.join(" ")).collect()
}

fn output(success: bool, stdout: &str, stderr: &str) -> CommandOutput {
    CommandOutput {
        success,
        status: "exit status: 2".to_string(),
        stdout: stdout.as_bytes().to_vec(),
        stderr: stderr.as_bytes().to_vec(),
    }
}

#[test]
fn names_follow_from_the_key() {
    assert_eq!(project_key("proj", "prod"), "proj-prod");
    assert_eq!(project_key("a b//c", "--"), "a-b-c-default");
    assert_eq!(tap_name_for("proj-prod"), "stx6158809340c");
    assert_eq!(mac_address_for("proj-prod"), "02:53:61:58:80:93");
    let naming = project_naming("proj", "prod");
    assert_eq!(naming.key, "proj-prod");
    assert_eq!(naming.start, 24920);
    assert!(naming.tap_name.len() <= 15);
}

#[test]
fn a_project_gets_a_network() {
    let busy = BTreeSet::new();
    let requests = vec![private(8080), request(ExposureVisibility::Public, Some(" a.example "), 80)];
    let (state, lease) =
        ensure_project_network(initial_state(), &busy, "proj", "prod", "vm-1", &requests).unwrap();
    assert_eq!(lease.vm_ip, Ipv4Addr::new(172, 31, 97, 90));
    assert_eq!(lease.tap_name, "stx6158809340c");
    assert_eq!(lease.mac_address, "02:53:61:58:80:93");
    assert_eq!(lease.prefix_len, 16);
    assert_eq!(state.version, 1);
    assert_eq!(state.projects.len(), 1);
    assert_eq!(state.projects[0].key, "proj-prod");
    let p = &state.projects[0].project;
    assert_eq!(p.vm_id, "vm-1");
    assert_eq!(p.exposures[0].host_port, Some(30_000));
    assert_eq!(p.exposures[1].host_port, None);
    assert_eq!(p.exposures[1].host, "a.example");
    assert_eq!(state.allocated_host_ports.len(), 1);
    assert_eq!(state.allocated_host_ports[&30_000].target_port, 8080);
    assert_eq!(
        project_route_descriptions(&state, "proj", "prod"),
        vec![
            "private exposure: 127.0.0.1:30000 -> 172.31.97.90:8080",
            "public exposure: a.example -> 172.31.97.90:80",
        ]
    );
    assert!(project_route_descriptions(&state, "nobody", "prod").is_empty());
    let (text, serves) = proxy_routes(&state);
    assert!(serves);
    assert_eq!(
        text,
        "# Generated by statix-agent. Do not edit by hand.\n\n127.0.0.1:30000 {\n\treverse_proxy 172.31.97.90:8080\n}\n\na.example {\n\treverse_proxy 172.31.97.90:80\n}\n\n"
    );
}

#[test]
fn asking_twice_is_asking_once() {
    let busy = BTreeSet::new();
    let requests = vec![private(1), private(2), private(1)];
    let (state, first) =
        ensure_project_network(initial_state(), &busy, "proj", "prod", "vm", &requests).unwrap();
    let before: Vec<u16> = state.allocated_host_ports.keys().copied().collect();
    assert_eq!(before, vec![30_000, 30_001]);
    assert_eq!(state.projects[0].project.exposures[2].host_port, Some(30_000));
    let (state, second) =
        ensure_project_network(state, &busy, "proj", "prod", "vm", &requests).unwrap();
    let after: Vec<u16> = state.allocated_host_ports.keys().copied().collect();
    assert_eq!(before, after);
    assert_eq!(first.vm_ip, second.vm_ip);
    assert_eq!(first.tap_name, second.tap_name);
    assert_eq!(first.mac_address, second.mac_address);
}

#[test]
fn ports_that_are_no_longer_used_are_taken_back() {
    let busy = BTreeSet::new();
    let (state, _) =
        ensure_project_network(initial_state(), &busy, "proj", "prod", "vm", &vec![private(1), private(2)])
            .unwrap();
    let (state, _) =
        ensure_project_network(state, &busy, "proj", "prod", "vm", &vec![private(2)]).unwrap();
    let kept: Vec<u16> = state.allocated_host_ports.keys().copied().collect();
    assert_eq!(kept, vec![30_001]);
}

#[test]
fn projects_share_no_port_and_no_address() {
    let mut busy = BTreeSet::new();
    busy.insert(30_000);
    let (state, a) =
        ensure_project_network(initial_state(), &busy, "proj", "prod", "vm", &vec![private(1)]).unwrap();
    let (state, b) =
        ensure_project_network(state, &busy, "other", "prod", "vm", &vec![private(1)]).unwrap();
    assert_ne!(a.vm_ip, b.vm_ip);
    let keys: Vec<&str> = state.projects.iter().map(|s| s.key.as_str()).collect();
    assert_eq!(keys, vec!["other-prod", "proj-prod"]);
    let ports: Vec<u16> = state.allocated_host_ports.keys().copied().collect();
    assert_eq!(ports, vec![30_001, 30_002]);
    assert_eq!(state.allocated_host_ports[&30_001].project_key, "proj-prod");
}

#[test]
fn requests_that_cannot_be_granted_are_refused() {
    let busy = BTreeSet::new();
    let zero = vec![private(0)];
    assert_eq!(
        ensure_project_network(initial_state(), &busy, "p", "e", "vm", &zero).unwrap_err(),
        NetworkError::InvalidTargetPort
    );
    let mut all: BTreeSet<u16> = BTreeSet::new();
    for p in 30_000..=39_999 {
        all.insert(p);
    }
    assert_eq!(
        ensure_project_network(initial_state(), &all, "p", "e", "vm", &vec![private(1)]).unwrap_err(),
        NetworkError::NoFreePort
    );
    assert!(ensure_project_network(initial_state(), &all, "p", "e", "vm", &vec![]).is_ok());
    assert_eq!(
        allocate_managed_port(initial_state(), &all, "p", "e", "udp").unwrap_err(),
        NetworkError::NoFreePort
    );
    assert_eq!(
        NetworkError::InvalidTargetPort.message(),
        "exposure targetPort must be between 1 and 65535"
    );
    assert_eq!(NetworkError::NoFreePort.message(), "no free managed host ports in 30000-39999");
    assert_eq!(NetworkError::NoFreeAddress.message(), "no available addresses in 172.31.0.0/16");
}

#[test]
fn address_search_goes_round_and_skips_what_is_taken() {
    let state = initial_state();
    assert_eq!(find_open_address(&state, 0), Ok(Ipv4Addr::new(172, 31, 0, 2)));
    assert_eq!(find_open_address(&state, 59_999), Ok(Ipv4Addr::new(172, 31, 234, 97)));
    let taken = AgentNetworkState::from_parts(
        1,
        BridgeState { name: "b".to_string(), gateway: Ipv4Addr::new(172, 31, 0, 1), prefix_len: 16 },
        vec![
            ProjectSlot {
                key: "a".to_string(),
                project: project("a", Ipv4Addr::new(172, 31, 234, 97), vec![]),
            },
            ProjectSlot {
                key: "b".to_string(),
                project: project("b", Ipv4Addr::new(172, 31, 0, 2), vec![]),
            },
        ],
        BTreeMap::new(),
    );
    assert_eq!(find_open_address(&taken, 59_999), Ok(Ipv4Addr::new(172, 31, 0, 3)));
    assert_eq!(allocate_vm_ip(&taken, "proj-prod"), Ok(Ipv4Addr::new(172, 31, 97, 90)));
}

#[test]
fn state_is_put_in_order() {
    let ip = Ipv4Addr::new(172, 31, 0, 9);
    let slots = vec![
        ProjectSlot { key: "b".to_string(), project: project("first", ip, vec![]) },
        ProjectSlot { key: "a".to_string(), project: project("a", ip, vec![]) },
        ProjectSlot { key: "b".to_string(), project: project("second", ip, vec![]) },
    ];
    let bridge =
        BridgeState { name: "b".to_string(), gateway: Ipv4Addr::new(172, 31, 0, 1), prefix_len: 16 };
    let state = AgentNetworkState::from_parts(3, bridge, slots, BTreeMap::new());
    assert_eq!(state.version, 3);
    assert_eq!(state.projects.len(), 2);
    assert_eq!(state.projects[0].key, "a");
    assert_eq!(state.projects[1].project.project_id, "second");
    for (a, b) in [("a", "b"), ("", "a"), ("a", "aa"), ("Z", "a"), ("a", "é"), ("é", "\u{10000}")] {
        assert!(is_before(a, b) && a < b);
        assert!(!is_before(b, a));
        assert!(!is_before(a, a));
    }
}

#[test]
fn stopping_keeps_the_address_where_asked() {
    let busy = BTreeSet::new();
    let (state, lease) =
        ensure_project_network(initial_state(), &busy, "proj", "prod", "vm", &vec![private(1)]).unwrap();
    let (state, tap) = stop_project_network(state, "proj", "prod", true);
    assert_eq!(tap.as_deref(), Some("stx6158809340c"));
    assert!(state.projects[0].project.reserved);
    assert!(state.projects[0].project.exposures.is_empty());
    assert_eq!(state.allocated_host_ports.len(), 1);
    assert_eq!(proxy_routes(&state).1, false);
    let (state, again) =
        ensure_project_network(state, &busy, "proj", "prod", "vm2", &vec![]).unwrap();
    assert_eq!(again.vm_ip, lease.vm_ip);
    assert!(!state.projects[0].project.reserved);
    let (state, tap) = stop_project_network(state, "proj", "prod", false);
    assert!(tap.is_some());
    assert!(state.projects.is_empty());
    let (state, tap) = stop_project_network(state, "proj", "prod", false);
    assert!(tap.is_none());
    assert_eq!(
        proxy_routes(&state).0,
        "# Generated by statix-agent. Do not edit by hand.\n\n"
    );
}

#[test]
fn identity_lasts_over_grants_and_reserved_stops() {
    let busy = BTreeSet::new();
    let (mut state, first) =
        ensure_project_network(initial_state(), &busy, "proj", "prod", "vm", &vec![private(1)]).unwrap();
    for vm in ["vm2", "vm3"] {
        state = ensure_project_network(state, &busy, "other", "prod", vm, &vec![]).unwrap().0;
        state = stop_project_network(state, "proj", "prod", true).0;
        state = stop_project_network(state, "other", "prod", false).0;
        let (next, lease) =
            ensure_project_network(state, &busy, "proj", "prod", vm, &vec![]).unwrap();
        assert_eq!(lease.vm_ip, first.vm_ip);
        assert_eq!(lease.tap_name, first.tap_name);
        assert_eq!(lease.mac_address, first.mac_address);
        state = next;
    }
    assert_eq!(state.projects.len(), 1);
}

#[test]
fn starting_up_gives_each_exposure_its_port() {
    let ip = Ipv4Addr::new(172, 31, 0, 9);
    let mut ports = BTreeMap::new();
    ports.insert(30_005, allocation("b", 30_005, 8));
    ports.insert(30_006, allocation("b", 30_006, 9));
    ports.insert(30_007, allocation("gone", 30_007, 1));
    let slots = vec![
        ProjectSlot {
            key: "b".to_string(),
            project: project(
                "b",
                ip,
                vec![
                    exposure(ExposureVisibility::Private, ExposureStatus::Active, 8),
                    exposure(ExposureVisibility::Public, ExposureStatus::Active, 9),
                    exposure(ExposureVisibility::Internal, ExposureStatus::Denied, 10),
                ],
            ),
        },
        ProjectSlot {
            key: "a".to_string(),
            project: project(
                "a",
                ip,
                vec![exposure(ExposureVisibility::Internal, ExposureStatus::Active, 8)],
            ),
        },
    ];
    let bridge =
        BridgeState { name: "b".to_string(), gateway: Ipv4Addr::new(172, 31, 0, 1), prefix_len: 16 };
    let state = AgentNetworkState::from_parts(0, bridge, slots, ports);
    let state = reconcile_on_start(state, &BTreeSet::new()).unwrap();
    assert_eq!(state.version, 1);
    assert_eq!(state.projects[0].project.exposures[0].host_port, Some(30_000));
    let b = &state.projects[1].project.exposures;
    assert_eq!(b[0].host_port, Some(30_005));
    assert_eq!(b[1].host_port, None);
    assert_eq!(b[2].host_port, None);
    let kept: Vec<u16> = state.allocated_host_ports.keys().copied().collect();
    assert_eq!(kept, vec![30_000, 30_005, 30_007]);

    // Starting up once more changes nothing.
    let again = reconcile_on_start(state, &BTreeSet::new()).unwrap();
    assert_eq!(again.projects[0].project.exposures[0].host_port, Some(30_000));
    assert_eq!(again.projects[1].project.exposures[0].host_port, Some(30_005));
    let kept: Vec<u16> = again.allocated_host_ports.keys().copied().collect();
    assert_eq!(kept, vec![30_000, 30_005, 30_007]);
}

#[test]
fn single_ports_are_handed_out_anew_each_time() {
    let mut busy = BTreeSet::new();
    busy.insert(30_001);
    let (state, a) = allocate_managed_port(initial_state(), &busy, "p", "e", "udp").unwrap();
    let (state, b) = allocate_managed_port(state, &busy, "p", "e", "udp").unwrap();
    assert_eq!((a, b), (30_000, 30_002));
    assert_eq!(state.allocated_host_ports[&30_000].protocol, "udp");
    assert_eq!(state.allocated_host_ports[&30_000].target_port, 0);
    assert_eq!(state.allocated_host_ports[&30_000].project_key, "p-e");
}

#[test]
fn a_claimed_port_is_found_again() {
    let mut state = initial_state();
    let busy = BTreeSet::new();
    let a = allocate_managed_port_for(&mut state, &busy, "k", "tcp", 80).unwrap();
    let b = allocate_managed_port_for(&mut state, &busy, "k", "tcp", 80).unwrap();
    let c = allocate_managed_port_for(&mut state, &busy, "k", "udp", 80).unwrap();
    let d = allocate_managed_port_for(&mut state, &busy, "l", "tcp", 80).unwrap();
    assert_eq!((a, b, c, d), (30_000, 30_000, 30_001, 30_002));
    let blocked = blocked_ports(&state, &busy);
    for p in [22, 53, 80, 443, 2375, 2376, 5432, 3306, 6379, 6443, 10250, 30_000, 30_001, 30_002] {
        assert!(blocked.contains(&p), "{p}");
    }
    assert_eq!(blocked.len(), 14);
    release_unused_host_ports(
        &mut state.allocated_host_ports,
        "k",
        &vec![("udp".to_string(), 80)],
    );
    let kept: Vec<u16> = state.allocated_host_ports.keys().copied().collect();
    assert_eq!(kept, vec![30_001, 30_002]);
}

#[test]
fn public_exposure_needs_leave_and_a_host() {
    let p = project("proj", Ipv4Addr::new(172, 31, 0, 9), vec![]);
    let mut r = request(ExposureVisibility::Public, Some("a.example"), 80);
    assert_eq!(evaluate_exposure(&p, &r).unwrap().status, ExposureStatus::Active);
    r.project_exposure_allowed = false;
    assert_eq!(
        evaluate_exposure(&p, &r).unwrap().reason.as_deref(),
        Some("project is not allowed to request public exposure")
    );
    r.node_ingress_allowed = false;
    assert_eq!(
        evaluate_exposure(&p, &r).unwrap().reason.as_deref(),
        Some("node is not allowed to act as an ingress node")
    );
    r.workspace_public_http_allowed = false;
    let denied = evaluate_exposure(&p, &r).unwrap();
    assert_eq!(denied.status, ExposureStatus::Denied);
    assert_eq!(
        denied.reason.as_deref(),
        Some("workspace policy does not allow public HTTP exposure")
    );
    r.host = Some("  ".to_string());
    let pending = evaluate_exposure(&p, &r).unwrap();
    assert_eq!(pending.status, ExposureStatus::Pending);
    assert_eq!(pending.host, "proj.statix.local");
    assert_eq!(pending.reason.as_deref(), Some("exposure host is not assigned yet"));
    let mut internal = request(ExposureVisibility::Internal, None, 80);
    internal.workspace_public_http_allowed = false;
    assert_eq!(evaluate_exposure(&p, &internal).unwrap().status, ExposureStatus::Active);
    assert_eq!(default_visibility(), ExposureVisibility::Private);
    assert!(default_project_exposure_allowed());
}

#[test]
fn exposures_are_described() {
    let mut state = initial_state();
    let mut denied = exposure(ExposureVisibility::Public, ExposureStatus::Denied, 80);
    denied.reason = Some("no".to_string());
    let pending = exposure(ExposureVisibility::Public, ExposureStatus::Pending, 81);
    let old = exposure(ExposureVisibility::Private, ExposureStatus::Active, 82);
    assert_eq!(exposure_bind(&old), "127.0.0.1:82");
    state.projects.push(ProjectSlot {
        key: "p-e".to_string(),
        project: project("p", Ipv4Addr::new(172, 31, 0, 9), vec![denied, pending, old]),
    });
    assert_eq!(
        project_route_descriptions(&state, "p", "e"),
        vec![
            "public exposure for 172.31.0.9:80 is denied (no)",
            "public exposure for 172.31.0.9:81 is pending",
            "private exposure: 127.0.0.1:82 -> 172.31.0.9:82",
        ]
    );
}

#[test]
fn ports_of_other_programs_are_read() {
    assert_eq!(parse_port("0.0.0.0:22"), Some(22));
    assert_eq!(parse_port("[::]:65535"), Some(65535));
    assert_eq!(parse_port("[::]:65536"), None);
    assert_eq!(parse_port("*"), None);
    let tcp = "LISTEN 0 128 x 0.0.0.0:22 0.0.0.0:*\nLISTEN 0 128 y [::]:8080 [::]:*\nshort 1 2 3";
    let udp = "UNCONN 0 0 z 127.0.0.1:53 0.0.0.0:*";
    let ports = listening_ports(Some(tcp), Some(udp)).unwrap();
    assert_eq!(ports.into_iter().collect::<Vec<_>>(), vec![22, 53, 8080]);
    assert!(listening_ports(Some(tcp), None).is_none());
    assert!(listening_ports(None, Some(udp)).is_none());
}

#[test]
fn ports_of_the_firewall_are_read() {
    let nft = "tcp dport { 80, 443 } accept\nudp dport 5000-5010 drop dnat to 10.0.0.2:8081";
    let ports = parse_firewall_ports(nft);
    assert_eq!(ports.into_iter().collect::<Vec<_>>(), vec![5000, 8081]);
    let saved = "-A INPUT -p tcp --dport 2222 -j ACCEPT\n-A PRE -j REDIRECT --to-ports 3000,3001-3005";
    let ports = parse_firewall_ports(saved);
    assert_eq!(ports.into_iter().collect::<Vec<_>>(), vec![2222, 3000, 3001]);
    let both = firewall_ports(Some("dport 1"), Some("--to-port 2"));
    assert_eq!(both.into_iter().collect::<Vec<_>>(), vec![1, 2]);
    assert!(firewall_ports(None, None).is_empty());
    let mut some = BTreeSet::new();
    collect_port_token("7,x,9-11,70000", &mut some);
    assert_eq!(some.iter().copied().collect::<Vec<_>>(), vec![7, 9]);
    let mut listening = BTreeSet::new();
    listening.insert(3);
    let all = busy_ports(Some(listening), some);
    assert_eq!(all.into_iter().collect::<Vec<_>>(), vec![3, 7, 9]);
    assert!(busy_ports(None, BTreeSet::new()).is_empty());
}

#[test]
fn devices_are_set_up_by_commands() {
    let bridge = initial_state().bridge;
    assert!(lists(bridge_link_plan(&bridge, true)).is_empty());
    assert_eq!(
        lists(bridge_link_plan(&bridge, false)),
        vec!["link add name statix0 type bridge"]
    );
    assert_eq!(
        lists(bridge_address_plan(&bridge, "3: statix0 inet 172.31.0.1/16 scope global")),
        vec!["link set dev statix0 up"]
    );
    assert_eq!(
        lists(bridge_address_plan(&bridge, "")),
        vec!["addr replace 172.31.0.1/16 dev statix0", "link set dev statix0 up"]
    );
    assert_eq!(
        lists(tap_plan(&bridge, "stx1", true, None)),
        vec!["link set stx1 master statix0", "link set dev stx1 up"]
    );
    assert_eq!(
        lists(tap_plan(&bridge, "stx1", false, None))[0],
        "tuntap add dev stx1 mode tap user statix-agent"
    );
    assert_eq!(
        lists(tap_plan(&bridge, "stx1", false, Some("me")))[0],
        "tuntap add dev stx1 mode tap user me"
    );
    assert_eq!(show_link_args("d").join(" "), "link show dev d");
    assert_eq!(delete_link_args("d").join(" "), "link delete d");
    assert_eq!(show_address_args("d").join(" "), "-4 -o addr show dev d");
}

#[test]
fn failures_of_commands_are_explained() {
    let args = vec!["link".to_string(), "up".to_string()];
    assert_eq!(
        failure_message("ip", &args, "exit status: 2", "RTNETLINK: Operation not permitted"),
        "network setup requires CAP_NET_ADMIN or root privileges; `ip link up` failed: RTNETLINK: Operation not permitted"
    );
    assert_eq!(
        failure_message("ip", &args, "exit status: 2", "Cannot find device \"x\""),
        "`ip link up` failed because the network device was not found: Cannot find device \"x\""
    );
    assert_eq!(
        failure_message("ip", &args, "exit status: 2", "Device \"x\" does not exist."),
        "`ip link up` failed because the network device was not found: Device \"x\" does not exist."
    );
    assert_eq!(
        failure_message("nft", &args, "exit status: 2", "Operation not permitted"),
        "`nft link up` failed with exit status: 2: Operation not permitted"
    );
    assert_eq!(
        failure_message("ip", &args, "exit status: 2", ""),
        "`ip link up` failed with exit status: 2"
    );
    assert_eq!(
        command_failure("ss", &args, &output(false, "out", " err ")),
        "`ss link up` failed with exit status: 2: err"
    );
    assert_eq!(command_output("ss", &args, &output(true, "out", "")), Ok("out".to_string()));
    assert_eq!(
        command_output("ss", &args, &output(false, " out", "")),
        Err("`ss link up` failed with exit status: 2: out".to_string())
    );
}

#[test]
fn proxy_is_told_step_by_step() {
    let ok = ProxyOutcome::Succeeded;
    let bad = ProxyOutcome::Failed("exit status: 1".to_string());
    let lost = ProxyOutcome::NotLaunched("no caddy".to_string());
    assert_eq!(next_proxy_step(ProxyStep::Validate, &ok, true), (ProxyStep::Reload, None));
    assert_eq!(
        next_proxy_step(ProxyStep::Validate, &bad, true),
        (
            ProxyStep::Done,
            Some("caddy config validation failed with exit status: 1; exposure proxy routes were not reloaded".to_string())
        )
    );
    assert_eq!(
        next_proxy_step(ProxyStep::Validate, &lost, true).1.unwrap(),
        "failed to launch caddy for exposure proxy routes: no caddy"
    );
    assert_eq!(next_proxy_step(ProxyStep::Reload, &ok, true), (ProxyStep::Done, None));
    let (step, warning) = next_proxy_step(ProxyStep::Reload, &bad, true);
    assert_eq!(step, ProxyStep::Start);
    assert_eq!(
        warning.unwrap(),
        "caddy reload failed with exit status: 1; attempting to start caddy"
    );
    assert_eq!(next_proxy_step(ProxyStep::Reload, &bad, false).0, ProxyStep::Done);
    assert_eq!(next_proxy_step(ProxyStep::Reload, &lost, true).0, ProxyStep::Done);
    assert_eq!(next_proxy_step(ProxyStep::Start, &bad, true), (ProxyStep::Done, None));
    assert!(next_proxy_step(ProxyStep::Start, &lost, true).1.is_some());
    assert_eq!(proxy_args(ProxyStep::Reload, "/c"), vec!["reload", "--config", "/c"]);
    assert_eq!(proxy_args(ProxyStep::Validate, "/c")[0], "validate");
    assert_eq!(proxy_args(ProxyStep::Start, "/c")[0], "start");
    assert!(proxy_args(ProxyStep::Done, "/c").is_empty());
    assert_eq!(proxy_dir("/s"), "/s/networking/proxy");
    assert_eq!(state_path("/s"), "/s/networking/state.json");
}
