//! The LXC commands that make, run and remove containers.
use vstd::prelude::*;
use vstd::string::*;

use crate::jobs::is_timeout;
use crate::paths::{below, join_path};
use crate::process::{TimedCommand, TimedModel};
use crate::text::{
    append_decimal, begins_with, decimal, middle_occurs, no_texts, occurs, push_text, same, str_of,
    text_of, texts, trim, trimmed,
};

use super::image::LxcImage;

verus! {

// ---------------------------------------------------------------------------
// Places
// ---------------------------------------------------------------------------

/// The path that an environment variable holds, if it holds one.
pub open spec fn path_in(value: Option<Seq<char>>) -> Option<Seq<char>> {
    match value {
        Some(v) => if trimmed(v).len() > 0 {
            Some(trimmed(v))
        } else {
            None
        },
        None => None,
    }
}

/// The path that an environment variable holds, if it holds one.
pub fn env_path(value: Option<&str>) -> (r: Option<String>)
    ensures
        text_of(r) == path_in(str_of(value)),
{
    match value {
        Some(v) => {
            let t = trim(v);
            if t.as_str().is_empty() {
                None
            } else {
                Some(t)
            }
        },
        None => None,
    }
}

/// The home of the LXC commands, given the two variables that may say where the
/// agent keeps its state.
pub open spec fn home_of(
    agent_state_dir: Option<Seq<char>>,
    state_directory: Option<Seq<char>>,
) -> Option<Seq<char>> {
    match path_in(agent_state_dir) {
        Some(p) => Some(below(p, "lxc"@)),
        None => match path_in(state_directory) {
            Some(p) => Some(below(p, "lxc"@)),
            None => None,
        },
    }
}

/// The home of the LXC commands, given the values of `STATIX_AGENT_STATE_DIR` and
/// `STATE_DIRECTORY`.
pub fn lxc_process_home(
    agent_state_dir: Option<&str>,
    state_directory: Option<&str>,
) -> (r: Option<String>)
    ensures
        text_of(r) == home_of(str_of(agent_state_dir), str_of(state_directory)),
{
    match env_path(agent_state_dir) {
        Some(p) => Some(join_path(p.as_str(), "lxc")),
        None => match env_path(state_directory) {
            Some(p) => Some(join_path(p.as_str(), "lxc")),
            None => None,
        },
    }
}

/// Where containers are kept.
pub open spec fn storage_of(home: Option<Seq<char>>) -> Seq<char> {
    match home {
        Some(h) => below(h, "containers"@),
        None => "/var/lib/lxc"@,
    }
}

/// Where containers are kept.
pub fn lxc_storage_path(home: Option<&str>) -> (r: String)
    ensures
        r@ == storage_of(str_of(home)),
{
    match home {
        Some(h) => join_path(h, "containers"),
        None => "/var/lib/lxc".to_string(),
    }
}

/// The variables that an LXC command with this home is run with, each with its
/// value.
pub open spec fn home_variables(home: Seq<char>) -> Seq<(Seq<char>, Seq<char>)> {
    seq![
        ("HOME"@, home),
        ("XDG_CACHE_HOME"@, below(home, ".cache"@)),
        ("XDG_CONFIG_HOME"@, below(home, ".config"@)),
        ("XDG_DATA_HOME"@, below(below(home, ".local"@), "share"@)),
    ]
}

/// The variables of an executable list.
pub open spec fn variables(v: Seq<(&'static str, String)>) -> Seq<(Seq<char>, Seq<char>)> {
    Seq::new(v.len(), |i: int| (v[i].0@, v[i].1@))
}

/// The variables that an LXC command is run with; without a home it has none of
/// its own.
pub fn lxc_variables(home: Option<&str>) -> (r: Vec<(&'static str, String)>)
    ensures
        variables(r@) == match home {
            Some(h) => home_variables(h@),
            None => Seq::empty(),
        },
{
    let mut r: Vec<(&'static str, String)> = Vec::new();
    if let Some(h) = home {
        let local = join_path(h, ".local");
        r.push(("HOME", h.to_owned()));
        r.push(("XDG_CACHE_HOME", join_path(h, ".cache")));
        r.push(("XDG_CONFIG_HOME", join_path(h, ".config")));
        r.push(("XDG_DATA_HOME", join_path(local.as_str(), "share")));
    }
    proof {
        match home {
            Some(h) => {
                assert(variables(r@) =~= home_variables(h@));
            },
            None => {
                assert(variables(r@) =~= Seq::<(Seq<char>, Seq<char>)>::empty());
            },
        }
    }
    r
}

/// The permissions that let others pass through a directory, where it has not
/// got them.
pub fn traversable_mode(mode: u32) -> (r: Option<u32>)
    ensures
        match r {
            Some(m) => m == mode | 0o711u32 && m != mode,
            None => mode | 0o711u32 == mode,
        },
{
    let m: u32 = mode | 0o711u32;
    if m != mode {
        Some(m)
    } else {
        None
    }
}

/// Where the files of a container lie.
#[derive(Debug)]
pub struct ContainerPaths {
    pub storage: String,
    pub rootfs: String,
    pub config: String,
    pub log: String,
    pub create_log: String,
    pub archive_dir: String,
    pub archive: String,
}

/// Whether these are the files of a container.
pub open spec fn are_paths(p: ContainerPaths, storage: Seq<char>, name: Seq<char>) -> bool {
    let rootfs = below(below(storage, name), "rootfs"@);
    &&& p.storage@ == storage
    &&& p.rootfs@ == rootfs
    &&& p.config@ == below(below(storage, name), "config"@)
    &&& p.log@ == below(below(storage, name), "statix-lxc.log"@)
    &&& p.create_log@ == below(storage, name + ".create.log"@)
    &&& p.archive_dir@ == below(rootfs, "var/lib/statix-agent"@)
    &&& p.archive@ == below(below(rootfs, "var/lib/statix-agent"@), "statix-workspace.tar.gz"@)
}

/// Where the files of a container lie.
pub fn container_paths(storage: &str, name: &str) -> (r: ContainerPaths)
    ensures
        are_paths(r, storage@, name@),
{
    let dir = join_path(storage, name);
    let rootfs = join_path(dir.as_str(), "rootfs");
    let archive_dir = join_path(rootfs.as_str(), "var/lib/statix-agent");
    let mut create_log = name.to_owned();
    create_log.append(".create.log");
    ContainerPaths {
        storage: storage.to_owned(),
        config: join_path(dir.as_str(), "config"),
        log: join_path(dir.as_str(), "statix-lxc.log"),
        create_log: join_path(storage, create_log.as_str()),
        archive: join_path(archive_dir.as_str(), "statix-workspace.tar.gz"),
        archive_dir,
        rootfs,
    }
}

// ---------------------------------------------------------------------------
// Commands
// ---------------------------------------------------------------------------

/// The name that LXC has for a host architecture.
pub open spec fn lxc_arch_of(arch: Seq<char>) -> Seq<char> {
    if arch == "x86_64"@ {
        "amd64"@
    } else if arch == "aarch64"@ {
        "arm64"@
    } else {
        arch
    }
}

/// The name that LXC has for a host architecture.
pub fn lxc_arch(arch: &str) -> (r: String)
    ensures
        r@ == lxc_arch_of(arch@),
{
    if same(arch, "x86_64") {
        "amd64".to_string()
    } else if same(arch, "aarch64") {
        "arm64".to_string()
    } else {
        arch.to_owned()
    }
}

/// The arguments of `lxc-create`.
pub fn create_args(name: &str, paths: &ContainerPaths, image: &LxcImage, arch: &str) -> (r: Vec<
    String,
>)
    ensures
        texts(r@) == seq![
            "-n"@,
            name@,
            "-P"@,
            paths.storage@,
            "--logfile"@,
            paths.create_log@,
            "--logpriority"@,
            "DEBUG"@,
            "-t"@,
            "download"@,
            "--"@,
            "-d"@,
            image.distribution@,
            "-r"@,
            image.release@,
            "-a"@,
            lxc_arch_of(arch@),
        ],
{
    let mut r = no_texts();
    push_text(&mut r, "-n");
    push_text(&mut r, name);
    push_text(&mut r, "-P");
    push_text(&mut r, paths.storage.as_str());
    push_text(&mut r, "--logfile");
    push_text(&mut r, paths.create_log.as_str());
    push_text(&mut r, "--logpriority");
    push_text(&mut r, "DEBUG");
    push_text(&mut r, "-t");
    push_text(&mut r, "download");
    push_text(&mut r, "--");
    push_text(&mut r, "-d");
    push_text(&mut r, image.distribution.as_str());
    push_text(&mut r, "-r");
    push_text(&mut r, image.release.as_str());
    push_text(&mut r, "-a");
    push_text(&mut r, lxc_arch(arch).as_str());
    r
}

/// The arguments of `lxc-start`.
pub fn start_args(name: &str, paths: &ContainerPaths) -> (r: Vec<String>)
    ensures
        texts(r@) == seq![
            "-n"@,
            name@,
            "-P"@,
            paths.storage@,
            "--logfile"@,
            paths.log@,
            "--logpriority"@,
            "DEBUG"@,
            "-d"@,
        ],
{
    let mut r = no_texts();
    push_text(&mut r, "-n");
    push_text(&mut r, name);
    push_text(&mut r, "-P");
    push_text(&mut r, paths.storage.as_str());
    push_text(&mut r, "--logfile");
    push_text(&mut r, paths.log.as_str());
    push_text(&mut r, "--logpriority");
    push_text(&mut r, "DEBUG");
    push_text(&mut r, "-d");
    r
}

/// The arguments of `lxc-wait`, which waits half a minute for the container to
/// run.
pub fn wait_args(name: &str, storage: &str) -> (r: Vec<String>)
    ensures
        texts(r@) == seq!["-n"@, name@, "-P"@, storage@, "-s"@, "RUNNING"@, "-t"@, "30"@],
{
    let mut r = no_texts();
    push_text(&mut r, "-n");
    push_text(&mut r, name);
    push_text(&mut r, "-P");
    push_text(&mut r, storage);
    push_text(&mut r, "-s");
    push_text(&mut r, "RUNNING");
    push_text(&mut r, "-t");
    push_text(&mut r, "30");
    r
}

/// The arguments of `lxc-attach` that run a command of the shell in a container.
pub fn attach_args(name: &str, storage: &str, shell_command: &str) -> (r: Vec<String>)
    ensures
        texts(r@) == seq![
            "-n"@,
            name@,
            "-P"@,
            storage@,
            "--"@,
            "sh"@,
            "-lc"@,
            shell_command@,
        ],
{
    let mut r = no_texts();
    push_text(&mut r, "-n");
    push_text(&mut r, name);
    push_text(&mut r, "-P");
    push_text(&mut r, storage);
    push_text(&mut r, "--");
    push_text(&mut r, "sh");
    push_text(&mut r, "-lc");
    push_text(&mut r, shell_command);
    r
}

/// The command that runs a command of the shell in a container, for as long as the
/// job may take.
pub fn attach_command(name: &str, storage: &str, shell_command: &str, timeout_seconds: u64) -> (r:
    TimedCommand)
    requires
        is_timeout(timeout_seconds),
    ensures
        r@ == (TimedModel {
            program: "lxc-attach"@,
            args: seq![
                "-n"@,
                name@,
                "-P"@,
                storage@,
                "--"@,
                "sh"@,
                "-lc"@,
                shell_command@,
            ],
            limit_ms: timeout_seconds * 1_000,
        }),
{
    TimedCommand {
        program: "lxc-attach",
        args: attach_args(name, storage, shell_command),
        limit_ms: timeout_seconds * 1_000,
    }
}

/// The arguments of `lxc-stop`.
pub fn stop_args(name: &str, storage: &str) -> (r: Vec<String>)
    ensures
        texts(r@) == seq!["-n"@, name@, "-P"@, storage@, "--kill"@],
{
    let mut r = no_texts();
    push_text(&mut r, "-n");
    push_text(&mut r, name);
    push_text(&mut r, "-P");
    push_text(&mut r, storage);
    push_text(&mut r, "--kill");
    r
}

/// The arguments of `lxc-destroy`.
pub fn destroy_args(name: &str, storage: &str) -> (r: Vec<String>)
    ensures
        texts(r@) == seq!["-n"@, name@, "-P"@, storage@],
{
    let mut r = no_texts();
    push_text(&mut r, "-n");
    push_text(&mut r, name);
    push_text(&mut r, "-P");
    push_text(&mut r, storage);
    r
}

// ---------------------------------------------------------------------------
// Configuration
// ---------------------------------------------------------------------------

/// What is added to the configuration of a container.
pub open spec fn job_config(cpu: u8, memory_mb: u32, enforce_limits: bool) -> Seq<char> {
    "\n# Statix job runtime config\n"@ + (if enforce_limits {
        "lxc.cgroup2.memory.max = "@ + decimal(memory_mb as nat * 1_048_576)
            + "\nlxc.cgroup2.cpu.max = "@ + decimal(cpu as nat * 100_000) + " 100000\n"@
    } else {
        "# cgroup limits requested by Statix are not written by default because unprivileged LXC startup fails on hosts without a fully delegated writable cgroup subtree.\n"@
    }) + "lxc.apparmor.profile = unconfined\n"@
}

/// Adds to the configuration of a container what a job needs; the limits on its
/// processors and its memory only where they are to be enforced.
pub fn write_job_lxc_config(config: &mut String, cpu: u8, memory_mb: u32, enforce_limits: bool)
    ensures
        final(config)@ == old(config)@ + job_config(cpu, memory_mb, enforce_limits),
{
    let mut limits = String::new();
    if enforce_limits {
        limits = "lxc.cgroup2.memory.max = ".to_string();
        append_decimal(&mut limits, memory_mb as u64 * 1_048_576);
        limits.append("\nlxc.cgroup2.cpu.max = ");
        append_decimal(&mut limits, cpu as u64 * 100_000);
        limits.append(" 100000\n");
    } else {
        limits =
        "# cgroup limits requested by Statix are not written by default because unprivileged LXC startup fails on hosts without a fully delegated writable cgroup subtree.\n".to_string();
    }
    let mut text = "\n# Statix job runtime config\n".to_string();
    text.append(limits.as_str());
    text.append("lxc.apparmor.profile = unconfined\n");
    config.append(text.as_str());
}

/// Whether the limits of containers are enforced, given the value of
/// `STATIX_LXC_ENFORCE_LIMITS`.
pub fn enforce_lxc_limits(value: Option<&str>) -> (r: bool)
    ensures
        r == crate::logs::emit::is_on(str_of(value)),
{
    crate::logs::emit::env_flag(value)
}

// ---------------------------------------------------------------------------
// What the places and limits are
// ---------------------------------------------------------------------------

/// Where limits are enforced, the container may use as many mebibytes of memory as were
/// asked for and the time of as many processors; where they are not, what was asked for
/// changes nothing.
pub proof fn limits_are_what_was_asked_for(cpu: u8, memory_mb: u32, other_cpu: u8, other_mb: u32)
    ensures
        occurs(
            job_config(cpu, memory_mb, true),
            "lxc.cgroup2.memory.max = "@ + decimal((memory_mb * 1_024 * 1_024) as nat) + "\n"@,
        ),
        occurs(
            job_config(cpu, memory_mb, true),
            "lxc.cgroup2.cpu.max = "@ + decimal((cpu * 100_000) as nat) + " 100000\n"@,
        ),
        job_config(cpu, memory_mb, false) == job_config(other_cpu, other_mb, false),
        !occurs(job_config(cpu, memory_mb, false), "lxc.cgroup2.memory.max"@),
{
    let head = "\n# Statix job runtime config\n"@;
    let m = decimal(memory_mb as nat * 1_048_576);
    let c = decimal(cpu as nat * 100_000);
    assert(memory_mb * 1_024 * 1_024 == memory_mb as nat * 1_048_576);
    let end = "lxc.apparmor.profile = unconfined\n"@;
    let text = job_config(cpu, memory_mb, true);
    reveal_strlit("\nlxc.cgroup2.cpu.max = ");
    reveal_strlit("lxc.cgroup2.cpu.max = ");
    reveal_strlit("\n");
    let memory = "lxc.cgroup2.memory.max = "@ + m + "\n"@;
    let rest = "lxc.cgroup2.cpu.max = "@ + c + " 100000\n"@;
    assert("\nlxc.cgroup2.cpu.max = "@ =~= "\n"@ + "lxc.cgroup2.cpu.max = "@);
    assert(text =~= head + memory + (rest + end));
    middle_occurs(head, memory, rest + end);
    middle_occurs(head + memory, rest, end);
    assert(text =~= head + memory + rest + end);
    lemma_unlimited(cpu, memory_mb);
}

proof fn lemma_unlimited(cpu: u8, memory_mb: u32)
    ensures
        !occurs(job_config(cpu, memory_mb, false), "lxc.cgroup2.memory.max"@),
{
    let head = "\n# Statix job runtime config\n"@;
    let note =
        "# cgroup limits requested by Statix are not written by default because unprivileged LXC startup fails on hosts without a fully delegated writable cgroup subtree.\n"@;
    let end = "lxc.apparmor.profile = unconfined\n"@;
    let text = job_config(cpu, memory_mb, false);
    reveal_strlit("\n# Statix job runtime config\n");
    reveal_strlit(
        "# cgroup limits requested by Statix are not written by default because unprivileged LXC startup fails on hosts without a fully delegated writable cgroup subtree.\n",
    );
    reveal_strlit("lxc.apparmor.profile = unconfined\n");
    reveal_strlit("lxc.cgroup2.memory.max");
    let needle = "lxc.cgroup2.memory.max"@;
    assert(needle[10] == '2');
    if occurs(text, needle) {
        let i = choose|i: int| crate::text::occurs_at(text, needle, i);
        assert(text.subrange(i, i + needle.len())[10] == text[i + 10]);
        assert(text[i + 10] == '2');
        assert forall|k: int| 0 <= k < text.len() implies #[trigger] text[k] != '2' by {
            if k < head.len() {
                assert(text[k] == head[k]);
            } else if k < head.len() + note.len() {
                assert(text[k] == note[k - head.len()]);
            } else {
                assert(text[k] == end[k - head.len() - note.len()]);
            }
        }
    }
}

/// The state directory of the agent goes before the one that the service manager gives;
/// where neither is set, containers stand where LXC keeps them.
pub proof fn containers_stand_in_the_state_directory(
    agent_state_dir: Option<Seq<char>>,
    state_directory: Option<Seq<char>>,
)
    ensures
        ({
            let first = agent_state_dir is Some && trimmed(agent_state_dir->0).len() > 0;
            let second = state_directory is Some && trimmed(state_directory->0).len() > 0;
            let home = home_of(agent_state_dir, state_directory);
            &&& first ==> home == Some(below(trimmed(agent_state_dir->0), "lxc"@))
            &&& !first && second ==> home == Some(below(trimmed(state_directory->0), "lxc"@))
            &&& !first && !second ==> home is None
            &&& home is Some ==> storage_of(home) == below(home->0, "containers"@)
            &&& home is None ==> storage_of(home) == "/var/lib/lxc"@
        }),
{
}

/// What LXC keeps for itself stands below its home.
pub proof fn home_holds_all_of_lxc(home: Seq<char>, i: int)
    requires
        0 <= i < home_variables(home).len(),
    ensures
        home_variables(home).len() == 4,
        home_variables(home)[0] == ("HOME"@, home),
        begins_with(home_variables(home)[i].1, home),
{
    assert(begins_with(below(home, ".cache"@), home)) by {
        reveal_strlit(".cache");
        crate::paths::path_stands_below(home, ".cache"@);
    }
    assert(begins_with(below(home, ".config"@), home)) by {
        reveal_strlit(".config");
        crate::paths::path_stands_below(home, ".config"@);
    }
    assert(begins_with(below(below(home, ".local"@), "share"@), home)) by {
        reveal_strlit(".local");
        reveal_strlit("share");
        let local = below(home, ".local"@);
        crate::paths::path_stands_below(home, ".local"@);
        crate::paths::path_stands_below(local, "share"@);
        crate::text::prefix_of_prefix(below(local, "share"@), local, home);
    }
    assert(home.take(home.len() as int) =~= home);
}

/// The archive of the workspace stands in the root of its container, which stands below
/// the storage under the name of the container.
#[verifier::rlimit(40)]
pub proof fn archive_stands_in_its_container(p: ContainerPaths, storage: Seq<char>, name: Seq<char>)
    requires
        are_paths(p, storage, name),
        crate::paths::is_name(name),
    ensures
        p.storage@ == storage,
        begins_with(p.rootfs@, below(storage, name)),
        begins_with(p.config@, below(storage, name)),
        begins_with(p.archive_dir@, p.rootfs@),
        begins_with(p.archive@, p.archive_dir@),
        p.archive@ != p.config@,
{
    reveal_strlit("rootfs");
    reveal_strlit("config");
    reveal_strlit("var/lib/statix-agent");
    reveal_strlit("statix-workspace.tar.gz");
    crate::paths::path_begins_with_its_base(below(storage, name), "rootfs"@);
    crate::paths::path_begins_with_its_base(below(storage, name), "config"@);
    crate::paths::path_begins_with_its_base(p.rootfs@, "var/lib/statix-agent"@);
    crate::paths::path_begins_with_its_base(p.archive_dir@, "statix-workspace.tar.gz"@);
    assert(p.archive@.last() == 'z') by {
        let a = p.archive@;
        assert(a.skip(a.len() - 23).last() == a.last());
    }
    assert(p.config@.last() == 'g') by {
        let a = p.config@;
        assert(a.skip(a.len() - 6).last() == a.last());
    }
}

/// The two architectures that LXC has names of its own for are named so; any other is
/// named as it is.
pub proof fn architectures_are_renamed(arch: Seq<char>)
    ensures
        lxc_arch_of("x86_64"@) == "amd64"@,
        lxc_arch_of("aarch64"@) == "arm64"@,
        arch != "x86_64"@ && arch != "aarch64"@ ==> lxc_arch_of(arch) == arch,
{
    reveal_strlit("x86_64");
    reveal_strlit("aarch64");
    assert("x86_64"@[0] == 'x' && "aarch64"@[0] == 'a');
}

/// What is written down of a container stands with it, but for what is written while it
/// is made: that stands beside it, under its name.
pub proof fn logs_stand_by_their_container(p: ContainerPaths, storage: Seq<char>, name: Seq<char>)
    requires
        are_paths(p, storage, name),
        crate::paths::is_name(name),
    ensures
        begins_with(p.log@, below(storage, name)),
        begins_with(p.create_log@, storage),
        p.create_log@.skip(p.create_log@.len() - name.len() - 11) == name + ".create.log"@,
        p.log@ != p.create_log@,
        p.log@ != p.config@,
{
    let dir = below(storage, name);
    let full = name + ".create.log"@;
    assert(name.contains(name[0]));
    assert(full.len() == name.len() + 11) by {
        reveal_strlit(".create.log");
    }
    assert(full[0] == name[0]);
    crate::paths::path_begins_with_its_base(storage, full);
    assert(begins_with(p.log@, dir) && p.log@ != p.config@) by {
        reveal_strlit("statix-lxc.log");
        reveal_strlit("config");
        crate::paths::path_stands_below(dir, "statix-lxc.log"@);
        assert("statix-lxc.log"@.len() == 14 && "config"@.len() == 6);
        crate::paths::names_lead_apart(dir, "statix-lxc.log"@, "config"@);
    }
    assert(p.log@[p.log@.len() - 5] == 'c') by {
        reveal_strlit("statix-lxc.log");
        let a = p.log@;
        crate::paths::path_begins_with_its_base(dir, "statix-lxc.log"@);
        assert(a.skip(a.len() - 14)[9] == a[a.len() - 5]);
    }
    assert(p.create_log@[p.create_log@.len() - 5] == 'e') by {
        reveal_strlit(".create.log");
        let b = p.create_log@;
        assert(full[full.len() - 5] == 'e');
        assert(b.skip(b.len() - full.len())[full.len() - 5] == b[b.len() - 5]);
    }
}

} // verus!
