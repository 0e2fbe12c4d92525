//! The emulator process of a machine.
use vstd::prelude::*;
use vstd::string::*;

use crate::networking::{LeaseModel, VmNetworkLease};
use crate::paths::{below, join_path};
use crate::shell::{shell_join, shell_text};
use crate::text::{
    append_decimal, decimal, ellipsized, join, joined, no_texts, number_of, parse_number, pieces,
    push_text, same, split, str_of, text_of, texts, to_decimal, trim, trimmed,
};

use super::util::{emulator, qemu_binary, truncate_for_log};

verus! {

// ---------------------------------------------------------------------------
// The command line
// ---------------------------------------------------------------------------

/// The arguments that each machine is launched with.
pub open spec fn base_arguments(
    overlay_image: Seq<char>,
    seed_iso: Seq<char>,
    cpu: u8,
    memory_mb: u32,
    ssh_port: u16,
) -> Seq<Seq<char>> {
    seq![
        "-nodefaults"@,
        "-no-user-config"@,
        "-machine"@,
        "q35,usb=off"@,
        "-cpu"@,
        "host"@,
        "-display"@,
        "none"@,
        "-vga"@,
        "none"@,
        "-serial"@,
        "stdio"@,
        "-no-reboot"@,
        "-m"@,
        decimal(memory_mb as nat),
        "-smp"@,
        decimal(cpu as nat),
        "-accel"@,
        "kvm"@,
        "-accel"@,
        "tcg,split-wx=on,thread=multi"@,
        "-drive"@,
        "if=none,id=rootdisk,format=qcow2,file="@ + overlay_image,
        "-device"@,
        "virtio-blk-pci,drive=rootdisk,bootindex=0"@,
        "-drive"@,
        "if=none,id=seed,format=raw,file="@ + seed_iso + ",media=cdrom,readonly=on"@,
        "-device"@,
        "virtio-blk-pci,drive=seed"@,
        "-device"@,
        "virtio-rng-pci"@,
        "-netdev"@,
        "user,id=net0,hostfwd=tcp::"@ + decimal(ssh_port as nat) + "-:22"@,
        "-device"@,
        "virtio-net-pci,netdev=net0,mac=52:54:00:12:34:56"@,
    ]
}

/// The arguments that tie a machine to its tap device.
pub open spec fn network_arguments(network: LeaseModel) -> Seq<Seq<char>> {
    seq![
        "-netdev"@,
        "tap,id=net1,ifname="@ + network.tap_name + ",script=no,downscript=no"@,
        "-device"@,
        "virtio-net-pci,netdev=net1,mac="@ + network.mac_address,
    ]
}

/// The arguments that a machine is launched with.
pub open spec fn launch_arguments(
    overlay_image: Seq<char>,
    seed_iso: Seq<char>,
    cpu: u8,
    memory_mb: u32,
    ssh_port: u16,
    network: Option<LeaseModel>,
) -> Seq<Seq<char>> {
    let base = base_arguments(overlay_image, seed_iso, cpu, memory_mb, ssh_port);
    match network {
        Some(n) => base + network_arguments(n),
        None => base,
    }
}

/// The model of a lease that may be missing.
pub open spec fn lease_of(network: Option<&VmNetworkLease>) -> Option<LeaseModel> {
    match network {
        Some(n) => Some(n@),
        None => None,
    }
}

fn around(before: &str, middle: &str, after: &str) -> (r: String)
    ensures
        r@ == before@ + middle@ + after@,
{
    let mut r = before.to_owned();
    r.append(middle);
    r.append(after);
    r
}

fn before(front: &str, back: &str) -> (r: String)
    ensures
        r@ == front@ + back@,
{
    let mut r = front.to_owned();
    r.append(back);
    r
}

fn base_args(
    overlay_image: &str,
    seed_iso: &str,
    cpu: u8,
    memory_mb: u32,
    ssh_port: u16,
) -> (r: Vec<String>)
    ensures
        texts(r@) == base_arguments(overlay_image@, seed_iso@, cpu, memory_mb, ssh_port),
{
    let mut r = no_texts();
    push_text(&mut r, "-nodefaults");
    push_text(&mut r, "-no-user-config");
    push_text(&mut r, "-machine");
    push_text(&mut r, "q35,usb=off");
    push_text(&mut r, "-cpu");
    push_text(&mut r, "host");
    push_text(&mut r, "-display");
    push_text(&mut r, "none");
    push_text(&mut r, "-vga");
    push_text(&mut r, "none");
    push_text(&mut r, "-serial");
    push_text(&mut r, "stdio");
    push_text(&mut r, "-no-reboot");
    push_text(&mut r, "-m");
    push_text(&mut r, to_decimal(memory_mb as u64).as_str());
    push_text(&mut r, "-smp");
    push_text(&mut r, to_decimal(cpu as u64).as_str());
    push_text(&mut r, "-accel");
    push_text(&mut r, "kvm");
    push_text(&mut r, "-accel");
    push_text(&mut r, "tcg,split-wx=on,thread=multi");
    push_text(&mut r, "-drive");
    push_text(
        &mut r,
        before("if=none,id=rootdisk,format=qcow2,file=", overlay_image).as_str(),
    );
    push_text(&mut r, "-device");
    push_text(&mut r, "virtio-blk-pci,drive=rootdisk,bootindex=0");
    push_text(&mut r, "-drive");
    push_text(
        &mut r,
        around("if=none,id=seed,format=raw,file=", seed_iso, ",media=cdrom,readonly=on").as_str(),
    );
    push_text(&mut r, "-device");
    push_text(&mut r, "virtio-blk-pci,drive=seed");
    push_text(&mut r, "-device");
    push_text(&mut r, "virtio-rng-pci");
    push_text(&mut r, "-netdev");
    push_text(
        &mut r,
        around(
            "user,id=net0,hostfwd=tcp::",
            to_decimal(ssh_port as u64).as_str(),
            "-:22",
        ).as_str(),
    );
    push_text(&mut r, "-device");
    push_text(&mut r, "virtio-net-pci,netdev=net0,mac=52:54:00:12:34:56");
    proof {
        assert(texts(r@) =~= base_arguments(overlay_image@, seed_iso@, cpu, memory_mb, ssh_port));
    }
    r
}

/// The arguments that a machine is launched with.
pub fn qemu_launch_args(
    overlay_image: &str,
    seed_iso: &str,
    cpu: u8,
    memory_mb: u32,
    ssh_port: u16,
    network: Option<&VmNetworkLease>,
) -> (r: Vec<String>)
    ensures
        texts(r@) == launch_arguments(
            overlay_image@,
            seed_iso@,
            cpu,
            memory_mb,
            ssh_port,
            lease_of(network),
        ),
{
    let mut r = base_args(overlay_image, seed_iso, cpu, memory_mb, ssh_port);
    if let Some(n) = network {
        let ghost base = texts(r@);
        push_text(&mut r, "-netdev");
        push_text(
            &mut r,
            around("tap,id=net1,ifname=", n.tap_name.as_str(), ",script=no,downscript=no").as_str(),
        );
        push_text(&mut r, "-device");
        push_text(
            &mut r,
            before("virtio-net-pci,netdev=net1,mac=", n.mac_address.as_str()).as_str(),
        );
        proof {
            assert(texts(r@) =~= base + network_arguments(n@));
        }
    }
    r
}

/// The argument by which a machine forwards a host port to its guest.
pub open spec fn forward_argument(ssh_port: u16) -> Seq<char> {
    "user,id=net0,hostfwd=tcp::"@ + decimal(ssh_port as nat) + "-:22"@
}

/// Whether a process is a machine that is reached through this host port, going
/// by its command line, whose arguments end in a zero character each.
pub fn serves_ssh_port(cmdline: &str, ssh_port: u16) -> (r: bool)
    ensures
        r == pieces(cmdline@, '\0').contains(forward_argument(ssh_port)),
{
    let args = split(cmdline, '\0');
    let ghost all = pieces(cmdline@, '\0');
    let wanted = around(
        "user,id=net0,hostfwd=tcp::",
        to_decimal(ssh_port as u64).as_str(),
        "-:22",
    );
    let mut i: usize = 0;
    while i < args.len()
        invariant
            all == pieces(cmdline@, '\0'),
            all == texts(args@),
            wanted@ == forward_argument(ssh_port),
            i <= args@.len(),
            forall|j: int| 0 <= j < i ==> #[trigger] all[j] != forward_argument(ssh_port),
        decreases args@.len() - i,
    {
        proof {
            assert(all[i as int] == args@[i as int]@);
        }
        if same(args[i].as_str(), wanted.as_str()) {
            return true;
        }
        i += 1;
    }
    false
}

/// A machine is launched with the argument that it is found by.
pub proof fn launched_machine_is_found(
    overlay_image: Seq<char>,
    seed_iso: Seq<char>,
    cpu: u8,
    memory_mb: u32,
    ssh_port: u16,
    network: Option<LeaseModel>,
)
    ensures
        launch_arguments(overlay_image, seed_iso, cpu, memory_mb, ssh_port, network).contains(
            forward_argument(ssh_port),
        ),
{
    let args = launch_arguments(overlay_image, seed_iso, cpu, memory_mb, ssh_port, network);
    assert(args[32] == forward_argument(ssh_port));
}

/// A command line as it is kept in a file.
pub open spec fn kept_command(binary: Seq<char>, args: Seq<Seq<char>>) -> Seq<char> {
    binary + " "@ + shell_text(args) + "\n"@
}

/// A command line as it is kept in a file.
pub fn format_qemu_command(binary: &str, args: &Vec<String>) -> (r: String)
    ensures
        r@ == kept_command(binary@, texts(args@)),
{
    let mut r = binary.to_owned();
    r.append(" ");
    r.append(shell_join(args).as_str());
    r.append("\n");
    r
}

/// The command line that a machine of a project should run under; the error is a
/// message for a reader.
pub fn desired_project_qemu_command(
    arch: &str,
    overlay_image: &str,
    seed_iso: &str,
    cpu: u8,
    memory_mb: u32,
    ssh_port: u16,
    network: Option<&VmNetworkLease>,
) -> (r: Result<String, String>)
    ensures
        match r {
            Ok(command) => emulator(arch@) matches Some(binary) && command@ == trimmed(
                kept_command(
                    binary,
                    launch_arguments(
                        overlay_image@,
                        seed_iso@,
                        cpu,
                        memory_mb,
                        ssh_port,
                        lease_of(network),
                    ),
                ),
            ),
            Err(e) => emulator(arch@) is None && e@
                == "unsupported host architecture for microvm runner: "@ + arch@,
        },
{
    match qemu_binary(arch) {
        Ok(binary) => {
            let args = qemu_launch_args(
                overlay_image,
                seed_iso,
                cpu,
                memory_mb,
                ssh_port,
                network,
            );
            let command = format_qemu_command(binary, &args);
            Ok(trim(command.as_str()))
        },
        Err(e) => Err(e),
    }
}

/// The command line that the file of a machine holds, if it holds one.
pub open spec fn command_in(contents: Option<Seq<char>>) -> Option<Seq<char>> {
    match contents {
        Some(c) => if trimmed(c).len() > 0 {
            Some(trimmed(c))
        } else {
            None
        },
        None => None,
    }
}

/// The command line that the file of a machine holds, if it holds one.
pub fn project_qemu_command(contents: Option<&str>) -> (r: Option<String>)
    ensures
        text_of(r) == command_in(str_of(contents)),
{
    match contents {
        Some(c) => {
            let t = trim(c);
            if t.as_str().is_empty() {
                None
            } else {
                Some(t)
            }
        },
        None => None,
    }
}

// ---------------------------------------------------------------------------
// The process
// ---------------------------------------------------------------------------

/// What is to be done about the process that a pid file names.
#[derive(Debug, Clone, Copy, PartialEq, Eq, Structural)]
pub enum PidAction {
    /// There is no file: nothing is to be done.
    Leave,
    /// The file is to be removed.
    RemoveFile,
    /// The process is to be killed, if it runs, and then the file removed.
    KillThenRemove(u32),
    /// The file is to be removed, unless the process runs.
    RemoveUnlessRunning(u32),
}

/// The process that a pid file names.
pub open spec fn pid_in(contents: Seq<char>) -> Option<nat> {
    number_of(trimmed(contents), u32::MAX as nat)
}

fn parse_pid(contents: &str) -> (r: Option<u32>)
    ensures
        match r {
            Some(pid) => pid_in(contents@) == Some(pid as nat),
            None => pid_in(contents@) is None,
        },
{
    let t = trim(contents);
    match parse_number(t.as_str(), u32::MAX as u64) {
        Some(n) => Some(n as u32),
        None => None,
    }
}

/// What stopping the process of a machine takes, given its pid file.
pub fn stop_project_qemu_process(pid_file: Option<&str>) -> (r: PidAction)
    ensures
        match pid_file {
            None => r == PidAction::Leave,
            Some(contents) => match pid_in(contents@) {
                Some(pid) => r == PidAction::KillThenRemove(pid as u32),
                None => r == PidAction::RemoveFile,
            },
        },
{
    match pid_file {
        None => PidAction::Leave,
        Some(contents) => match parse_pid(contents) {
            Some(pid) => PidAction::KillThenRemove(pid),
            None => PidAction::RemoveFile,
        },
    }
}

/// What forgetting a process that is gone takes, given its pid file.
pub fn remove_stale_project_qemu_pid(pid_file: Option<&str>) -> (r: PidAction)
    ensures
        match pid_file {
            None => r == PidAction::Leave,
            Some(contents) => match pid_in(contents@) {
                Some(pid) => r == PidAction::RemoveUnlessRunning(pid as u32),
                None => r == PidAction::RemoveFile,
            },
        },
{
    match pid_file {
        None => PidAction::Leave,
        Some(contents) => match parse_pid(contents) {
            Some(pid) => PidAction::RemoveUnlessRunning(pid),
            None => PidAction::RemoveFile,
        },
    }
}

/// The process whose end is to be looked for, given its pid file.
pub fn project_qemu_pid(pid_file: Option<&str>) -> (r: Option<u32>)
    ensures
        match r {
            Some(pid) => pid_file is Some && pid_in(pid_file->0@) == Some(pid as nat),
            None => pid_file is None || pid_in(pid_file->0@) is None,
        },
{
    match pid_file {
        Some(contents) => parse_pid(contents),
        None => None,
    }
}

/// What is said of a process that may have ended.
pub fn project_qemu_exit_status(pid: u32, is_running: bool) -> (r: Option<String>)
    ensures
        text_of(r) == if is_running {
            None
        } else {
            Some("pid "@ + decimal(pid as nat) + " is no longer running"@)
        },
{
    if is_running {
        None
    } else {
        let mut s = "pid ".to_string();
        append_decimal(&mut s, pid as u64);
        s.append(" is no longer running");
        Some(s)
    }
}

// ---------------------------------------------------------------------------
// Logs
// ---------------------------------------------------------------------------

/// The files that the emulator of a project leaves in the directory of its machine.
#[derive(Debug)]
pub struct QemuFiles {
    pub pid: String,
    pub command: String,
    pub stdout: String,
    pub stderr: String,
    pub serial: String,
}

/// Whether these are the files of the emulator in a directory.
pub open spec fn are_qemu_files(files: QemuFiles, runtime_root: Seq<char>) -> bool {
    &&& files.pid@ == below(runtime_root, "qemu.pid"@)
    &&& files.command@ == below(runtime_root, "qemu.command.txt"@)
    &&& files.stdout@ == below(runtime_root, "qemu.stdout.log"@)
    &&& files.stderr@ == below(runtime_root, "qemu.stderr.log"@)
    &&& files.serial@ == below(runtime_root, "qemu.serial.log"@)
}

/// The files of the emulator in the directory of its machine.
pub fn qemu_files(runtime_root: &str) -> (r: QemuFiles)
    ensures
        are_qemu_files(r, runtime_root@),
{
    QemuFiles {
        pid: join_path(runtime_root, "qemu.pid"),
        command: join_path(runtime_root, "qemu.command.txt"),
        stdout: join_path(runtime_root, "qemu.stdout.log"),
        stderr: join_path(runtime_root, "qemu.stderr.log"),
        serial: join_path(runtime_root, "qemu.serial.log"),
    }
}

/// The excerpt of a file, under its name, if the file holds something.
pub open spec fn file_excerpt(name: Seq<char>, contents: Option<Seq<char>>) -> Seq<Seq<char>> {
    match contents {
        Some(c) => if trimmed(c).len() > 0 {
            seq![name + ":\n"@ + ellipsized(trimmed(c), 4_000)]
        } else {
            Seq::empty()
        },
        None => Seq::empty(),
    }
}

/// What the files of the emulator hold, for a reader: its command line, what it
/// wrote as errors, and what it wrote else.
pub open spec fn recent_logs_text(
    command: Option<Seq<char>>,
    stderr: Option<Seq<char>>,
    stdout: Option<Seq<char>>,
) -> Seq<char> {
    joined(
        file_excerpt("qemu.command.txt"@, command) + file_excerpt("qemu.stderr.log"@, stderr)
            + file_excerpt("qemu.stdout.log"@, stdout),
        "\n"@,
    )
}

fn add_excerpt(parts: &mut Vec<String>, name: &str, contents: Option<&str>)
    ensures
        texts(final(parts)@) == texts(old(parts)@) + file_excerpt(name@, str_of(contents)),
{
    let ghost before = texts(parts@);
    if let Some(c) = contents {
        let t = trim(c);
        if !t.as_str().is_empty() {
            let mut e = name.to_owned();
            e.append(":\n");
            e.append(truncate_for_log(t.as_str(), 4_000).as_str());
            push_text(parts, e.as_str());
        }
    }
    proof {
        assert(texts(parts@) =~= before + file_excerpt(name@, str_of(contents)));
    }
}

/// What the files of the emulator of a project hold, for a reader, given what can be
/// read of them.
pub fn recent_project_qemu_logs(
    command: Option<&str>,
    stderr: Option<&str>,
    stdout: Option<&str>,
) -> (r: String)
    ensures
        r@ == recent_logs_text(str_of(command), str_of(stderr), str_of(stdout)),
{
    let mut parts = no_texts();
    add_excerpt(&mut parts, "qemu.command.txt", command);
    add_excerpt(&mut parts, "qemu.stderr.log", stderr);
    add_excerpt(&mut parts, "qemu.stdout.log", stdout);
    proof {
        assert(texts(parts@) =~= file_excerpt("qemu.command.txt"@, str_of(command)) + file_excerpt(
            "qemu.stderr.log"@,
            str_of(stderr),
        ) + file_excerpt("qemu.stdout.log"@, str_of(stdout)));
    }
    join(&parts, "\n")
}

/// How many lines of the emulator are kept.
pub const RECENT_LOG_LINES: usize = 32;

/// The last lines that the emulator wrote, the oldest first.
#[derive(Debug)]
pub struct RecentLogs {
    pub lines: Vec<String>,
}

/// The lines that are kept after one more: the last ones.
pub open spec fn kept_lines(lines: Seq<Seq<char>>, line: Seq<char>) -> Seq<Seq<char>> {
    if lines.len() == RECENT_LOG_LINES {
        lines.drop_first().push(line)
    } else {
        lines.push(line)
    }
}

impl RecentLogs {
    /// At most so many lines are kept.
    pub open spec fn wf(&self) -> bool {
        self.lines@.len() <= RECENT_LOG_LINES
    }

    pub fn new() -> (r: Self)
        ensures
            r.wf(),
            texts(r.lines@) == Seq::<Seq<char>>::empty(),
    {
        RecentLogs { lines: no_texts() }
    }

    /// Keeps a line of an output of the emulator, in place of the oldest line
    /// where there are enough.
    pub fn keep(&mut self, label: &str, line: &str)
        requires
            old(self).wf(),
        ensures
            final(self).wf(),
            texts(final(self).lines@) == kept_lines(
                texts(old(self).lines@),
                label@ + ": "@ + line@,
            ),
    {
        let ghost before = texts(self.lines@);
        if self.lines.len() == RECENT_LOG_LINES {
            self.lines.remove(0);
            proof {
                assert(texts(self.lines@) =~= before.drop_first());
            }
        }
        let mut s = label.to_owned();
        s.append(": ");
        s.append(line);
        push_text(&mut self.lines, s.as_str());
        proof {
            assert(self.lines@.len() == texts(self.lines@).len());
        }
    }

    /// What is said where the emulator ended before its guest was ready.
    pub fn failure_message(&self, status: &str) -> (r: String)
        ensures
            r@ == early_exit(status@, joined(texts(self.lines@), "\n"@)),
    {
        let logs = join(&self.lines, "\n");
        let mut r = "qemu exited before the guest became ready: ".to_string();
        r.append(status);
        let t = trim(logs.as_str());
        if !t.as_str().is_empty() {
            r.append("\nrecent qemu logs:\n");
            r.append(logs.as_str());
        }
        r
    }
}

/// What is said where the emulator ended before its guest was ready.
pub open spec fn early_exit(status: Seq<char>, logs: Seq<char>) -> Seq<char> {
    if trimmed(logs).len() == 0 {
        "qemu exited before the guest became ready: "@ + status
    } else {
        "qemu exited before the guest became ready: "@ + status + "\nrecent qemu logs:\n"@ + logs
    }
}

/// How the emulator ended.
#[derive(Debug)]
pub enum EmulatorEnd {
    Exited { success: bool, status: String },
    NotWaitedFor(String),
}

/// What is logged of the emulator's end, and whether it is a warning.
pub fn qemu_end_note(end: &EmulatorEnd) -> (r: (bool, String))
    ensures
        match *end {
            EmulatorEnd::Exited { success, status } => r.0 == !success && r.1@
                == "qemu exited with status: "@ + status@,
            EmulatorEnd::NotWaitedFor(error) => r.0 && r.1@ == "failed to wait for qemu: "@
                + error@,
        },
{
    match end {
        EmulatorEnd::Exited { success, status } => {
            let mut s = "qemu exited with status: ".to_string();
            s.append(status.as_str());
            (!*success, s)
        },
        EmulatorEnd::NotWaitedFor(error) => {
            let mut s = "failed to wait for qemu: ".to_string();
            s.append(error.as_str());
            (true, s)
        },
    }
}

// ---------------------------------------------------------------------------
// What a machine is launched as
// ---------------------------------------------------------------------------

/// Whether two arguments stand one behind the other.
pub open spec fn has_option(args: Seq<Seq<char>>, name: Seq<char>, value: Seq<char>) -> bool {
    exists|i: int| 0 <= i < args.len() - 1 && #[trigger] args[i] == name && args[i + 1] == value
}

/// A machine is launched with the memory and the processors of its plan, on its own disk,
/// with its seed, and reached through its port; one with a network has the device and
/// the hardware address of its lease.
pub proof fn machine_is_launched_as_planned(
    overlay_image: Seq<char>,
    seed_iso: Seq<char>,
    cpu: u8,
    memory_mb: u32,
    ssh_port: u16,
    network: Option<LeaseModel>,
)
    ensures
        ({
            let args = launch_arguments(
                overlay_image,
                seed_iso,
                cpu,
                memory_mb,
                ssh_port,
                network,
            );
            &&& has_option(args, "-m"@, decimal(memory_mb as nat))
            &&& has_option(args, "-smp"@, decimal(cpu as nat))
            &&& has_option(
                args,
                "-drive"@,
                "if=none,id=rootdisk,format=qcow2,file="@ + overlay_image,
            )
            &&& has_option(
                args,
                "-drive"@,
                "if=none,id=seed,format=raw,file="@ + seed_iso + ",media=cdrom,readonly=on"@,
            )
            &&& has_option(
                args,
                "-netdev"@,
                "user,id=net0,hostfwd=tcp::"@ + decimal(ssh_port as nat) + "-:22"@,
            )
            &&& network matches Some(n) ==> has_option(
                args,
                "-netdev"@,
                "tap,id=net1,ifname="@ + n.tap_name + ",script=no,downscript=no"@,
            ) && has_option(args, "-device"@, "virtio-net-pci,netdev=net1,mac="@ + n.mac_address)
        }),
{
    let args = launch_arguments(overlay_image, seed_iso, cpu, memory_mb, ssh_port, network);
    let base = base_arguments(overlay_image, seed_iso, cpu, memory_mb, ssh_port);
    assert(base.len() == 35);
    assert(forall|i: int| 0 <= i < 35 ==> #[trigger] args[i] == base[i]);
    assert(args[13] == "-m"@ && args[14] == decimal(memory_mb as nat));
    assert(args[15] == "-smp"@ && args[16] == decimal(cpu as nat));
    assert(args[21] == "-drive"@ && args[22] == base[22]);
    assert(args[25] == "-drive"@ && args[26] == base[26]);
    assert(args[31] == "-netdev"@ && args[32] == base[32]);
    if let Some(n) = network {
        let more = network_arguments(n);
        assert(args[35] == more[0] && args[36] == more[1]);
        assert(args[37] == more[2] && args[38] == more[3]);
    }
}

/// A network only adds to how a machine is launched.
pub proof fn network_adds_to_the_launch(
    overlay_image: Seq<char>,
    seed_iso: Seq<char>,
    cpu: u8,
    memory_mb: u32,
    ssh_port: u16,
    network: LeaseModel,
)
    ensures
        ({
            let with = launch_arguments(
                overlay_image,
                seed_iso,
                cpu,
                memory_mb,
                ssh_port,
                Some(network),
            );
            let without = launch_arguments(
                overlay_image,
                seed_iso,
                cpu,
                memory_mb,
                ssh_port,
                None,
            );
            with.len() > without.len() && with.take(without.len() as int) == without
        }),
{
    let without = launch_arguments(overlay_image, seed_iso, cpu, memory_mb, ssh_port, None);
    let with = without + network_arguments(network);
    assert(with.take(without.len() as int) =~= without);
}

/// The command line that is kept of a launch is read back as the one that is wanted as
/// long as nothing changes, so that the machine is not launched anew; and a shell reads
/// the arguments out of it as they were.
pub proof fn kept_command_is_the_wanted_one(binary: Seq<char>, args: Seq<Seq<char>>)
    requires
        trimmed(kept_command(binary, args)).len() > 0,
    ensures
        command_in(Some(kept_command(binary, args))) == Some(trimmed(kept_command(binary, args))),
        !super::service::command_changed(
            command_in(Some(kept_command(binary, args))),
            trimmed(kept_command(binary, args)),
        ),
        crate::text::begins_with(kept_command(binary, args), binary + " "@),
        crate::text::occurs(kept_command(binary, args), shell_text(args)),
        crate::shell::shell_words(shell_text(args)) == Some(args),
{
    crate::shell::shell_reads_back(args);
    crate::text::middle_occurs(binary + " "@, shell_text(args), "\n"@);
    let all = kept_command(binary, args);
    assert(all.take(binary.len() as int + " "@.len()) =~= binary + " "@);
}

/// Another command line is a change; no command line is none.
pub proof fn other_command_is_a_change(kept: Seq<char>, desired: Seq<char>)
    ensures
        super::service::command_changed(Some(kept), desired) <==> kept != desired,
        !super::service::command_changed(None, desired),
        command_in(None) is None,
{
}

/// The number of a process is read from its file, whatever white space is around it.
pub proof fn process_number_reads_back(front: Seq<char>, pid: u32, back: Seq<char>)
    requires
        forall|i: int| 0 <= i < front.len() ==> crate::text::is_white(#[trigger] front[i]),
        forall|i: int| 0 <= i < back.len() ==> crate::text::is_white(#[trigger] back[i]),
    ensures
        pid_in(front + decimal(pid as nat) + back) == Some(pid as nat),
{
    let d = decimal(pid as nat);
    crate::text::decimal_reads_back(pid as nat);
    assert(crate::text::is_digit(d[0]) && crate::text::is_digit(d[d.len() - 1]));
    crate::text::characters_are_told_apart(d[0]);
    crate::text::characters_are_told_apart(d.last());
    crate::text::white_space_around_is_ignored(front, d, back);
    assert(number_of(d, u32::MAX as nat) == Some(pid as nat));
}

/// The lines that are kept of an emulator are the last ones, thirty-two at most, the
/// newest one last.
pub proof fn newest_lines_are_kept(lines: Seq<Seq<char>>, line: Seq<char>)
    requires
        lines.len() <= 32,
    ensures
        kept_lines(lines, line).len() <= 32,
        kept_lines(lines, line).last() == line,
        lines.len() < 32 ==> kept_lines(lines, line) == lines.push(line),
        lines.len() == 32 ==> kept_lines(lines, line) == lines.push(line).skip(1),
{
    if lines.len() == 32 {
        assert(kept_lines(lines, line) =~= lines.push(line).skip(1));
    }
}

/// What is told of an emulator that ended names how it ended, and what it wrote if it
/// wrote anything.
pub proof fn early_end_is_told(status: Seq<char>, logs: Seq<char>)
    ensures
        crate::text::occurs(early_exit(status, logs), status),
        trimmed(logs).len() > 0 ==> crate::text::occurs(early_exit(status, logs), logs),
{
    let front = "qemu exited before the guest became ready: "@;
    let none = Seq::<char>::empty();
    if trimmed(logs).len() > 0 {
        let mid = "\nrecent qemu logs:\n"@;
        crate::text::middle_occurs(front, status, mid + logs);
        assert(early_exit(status, logs) =~= front + status + (mid + logs));
        crate::text::middle_occurs(front + status + mid, logs, none);
        assert(early_exit(status, logs) =~= front + status + mid + logs + none);
    } else {
        crate::text::middle_occurs(front, status, none);
        assert(early_exit(status, logs) =~= front + status + none);
    }
}

/// Each file of the emulator that holds something is told under its name, cut where it
/// is too long; one that holds nothing is passed over.
pub proof fn files_are_told_by_name(
    command: Option<Seq<char>>,
    stderr: Option<Seq<char>>,
    stdout: Option<Seq<char>>,
)
    ensures
        ({
            let text = recent_logs_text(command, stderr, stdout);
            &&& command is Some && 0 < trimmed(command->0).len() <= 4_000 ==> crate::text::occurs(
                text,
                "qemu.command.txt:\n"@ + trimmed(command->0),
            )
            &&& stderr is Some && 0 < trimmed(stderr->0).len() <= 4_000 ==> crate::text::occurs(
                text,
                "qemu.stderr.log:\n"@ + trimmed(stderr->0),
            )
            &&& stdout is Some && 0 < trimmed(stdout->0).len() <= 4_000 ==> crate::text::occurs(
                text,
                "qemu.stdout.log:\n"@ + trimmed(stdout->0),
            )
            &&& command is None && stderr is None && stdout is None ==> text.len() == 0
        }),
{
    let a = file_excerpt("qemu.command.txt"@, command);
    let b = file_excerpt("qemu.stderr.log"@, stderr);
    let c = file_excerpt("qemu.stdout.log"@, stdout);
    let all = a + b + c;
    reveal_strlit("qemu.command.txt");
    reveal_strlit("qemu.stderr.log");
    reveal_strlit("qemu.stdout.log");
    reveal_strlit("qemu.command.txt:\n");
    reveal_strlit("qemu.stderr.log:\n");
    reveal_strlit("qemu.stdout.log:\n");
    reveal_strlit(":\n");
    assert("qemu.command.txt:\n"@ =~= "qemu.command.txt"@ + ":\n"@);
    assert("qemu.stderr.log:\n"@ =~= "qemu.stderr.log"@ + ":\n"@);
    assert("qemu.stdout.log:\n"@ =~= "qemu.stdout.log"@ + ":\n"@);
    if a.len() > 0 {
        assert(all[0] == a[0]);
        lemma_part_is_joined(all, 0, "\n"@);
    }
    if b.len() > 0 {
        assert(all[a.len() as int] == b[0]);
        lemma_part_is_joined(all, a.len() as int, "\n"@);
    }
    if c.len() > 0 {
        assert(all[(a.len() + b.len()) as int] == c[0]);
        lemma_part_is_joined(all, (a.len() + b.len()) as int, "\n"@);
    }
}

proof fn lemma_part_is_joined(parts: Seq<Seq<char>>, i: int, sep: Seq<char>)
    requires
        0 <= i < parts.len(),
    ensures
        crate::text::occurs(joined(parts, sep), parts[i]),
    decreases parts.len(),
{
    let none = Seq::<char>::empty();
    if parts.len() == 1 {
        crate::text::middle_occurs(none, parts[0], none);
        assert(none + parts[0] + none =~= parts[0]);
    } else {
        let init = joined(parts.drop_last(), sep);
        if i == parts.len() - 1 {
            crate::text::middle_occurs(init + sep, parts[i], none);
            assert(init + sep + parts[i] + none =~= joined(parts, sep));
        } else {
            lemma_part_is_joined(parts.drop_last(), i, sep);
            crate::text::part_occurs(none, init, sep + parts.last(), parts[i]);
            assert(none + init + (sep + parts.last()) =~= joined(parts, sep));
        }
    }
}

/// The files of an emulator stand in the directory of its machine, each under its own
/// name.
pub proof fn files_stand_in_the_directory(files: QemuFiles, runtime_root: Seq<char>)
    requires
        are_qemu_files(files, runtime_root),
    ensures
        crate::text::begins_with(files.pid@, runtime_root),
        crate::text::begins_with(files.command@, runtime_root),
        crate::text::begins_with(files.stdout@, runtime_root),
        crate::text::begins_with(files.stderr@, runtime_root),
        crate::text::begins_with(files.serial@, runtime_root),
        files.stdout@ != files.stderr@,
        files.stdout@ != files.serial@,
        files.stderr@ != files.serial@,
        files.pid@ != files.command@,
        files.pid@ != files.stdout@,
        files.command@ != files.stdout@,
{
    reveal_strlit("qemu.pid");
    reveal_strlit("qemu.command.txt");
    reveal_strlit("qemu.stdout.log");
    reveal_strlit("qemu.stderr.log");
    reveal_strlit("qemu.serial.log");
    let (pid, command) = ("qemu.pid"@, "qemu.command.txt"@);
    let (stdout, stderr, serial) = ("qemu.stdout.log"@, "qemu.stderr.log"@, "qemu.serial.log"@);
    assert(pid.len() == 8 && command.len() == 16 && stdout.len() == 15);
    assert(stdout[8] == 'o' && stderr[8] == 'e' && stderr[7] == 'd' && stdout[7] == 'd');
    assert(serial[7] == 'r');
    crate::paths::path_stands_below(runtime_root, pid);
    crate::paths::path_stands_below(runtime_root, command);
    crate::paths::path_stands_below(runtime_root, stdout);
    crate::paths::path_stands_below(runtime_root, stderr);
    crate::paths::path_stands_below(runtime_root, serial);
    crate::paths::names_lead_apart(runtime_root, stdout, stderr);
    crate::paths::names_lead_apart(runtime_root, stdout, serial);
    crate::paths::names_lead_apart(runtime_root, stderr, serial);
    crate::paths::names_lead_apart(runtime_root, pid, command);
    crate::paths::names_lead_apart(runtime_root, pid, stdout);
    crate::paths::names_lead_apart(runtime_root, command, stdout);
}

/// A file that holds nothing but white space is as good as none: it shows no command, and
/// nothing is told of it.
pub proof fn empty_files_say_nothing(name: Seq<char>, contents: Seq<char>)
    ensures
        trimmed(contents).len() == 0 ==> command_in(Some(contents)) is None && file_excerpt(
            name,
            Some(contents),
        ).len() == 0,
        trimmed(contents).len() > 0 ==> command_in(Some(contents)) == Some(trimmed(contents))
            && file_excerpt(name, Some(contents)).len() == 1 && crate::text::begins_with(
            file_excerpt(name, Some(contents))[0],
            name,
        ),
        command_in(None) is None,
        file_excerpt(name, None).len() == 0,
{
    if trimmed(contents).len() > 0 {
        let told = ellipsized(trimmed(contents), 4_000);
        crate::text::parts_are_found(name, ":\n"@, told);
    }
}

} // verus!
