//! What is said where a container does not start.
use vstd::prelude::*;
use vstd::string::*;

use crate::process::CommandOutput;
use crate::text::{
    begins_with, contains, last_chars, lines, lines_of, middle_occurs, occurs, pieces, same,
    slice_text, split, str_of, texts, to_chars, trim, trimmed, words, words_of,
};

verus! {

// ---------------------------------------------------------------------------
// Excerpts of logs
// ---------------------------------------------------------------------------

/// The end of a text that is too long for a log.
pub open spec fn log_tail(s: Seq<char>, n: nat) -> Seq<char> {
    if s.len() <= n {
        s
    } else {
        "..."@ + last_chars(s, n)
    }
}

/// Taking the end of a text twice is taking it once.
pub proof fn tail_is_stable(s: Seq<char>, n: nat)
    ensures
        log_tail(log_tail(s, n), n) == log_tail(s, n),
{
    reveal_strlit("...");
    if s.len() > n {
        assert(last_chars(log_tail(s, n), n) =~= last_chars(s, n));
    }
}

/// The end of a text that is too long for a log.
pub fn tail_for_log(value: &str, max_chars: usize) -> (r: String)
    ensures
        r@ == log_tail(value@, max_chars as nat),
{
    let cs = to_chars(value);
    if cs.len() <= max_chars {
        return value.to_owned();
    }
    let from = cs.len() - max_chars;
    let tail = slice_text(&cs, from, cs.len());
    let mut r = "...".to_string();
    r.append(tail.as_str());
    proof {
        assert(tail@ =~= last_chars(value@, max_chars as nat));
    }
    r
}

/// What is said of a log file: its end, or why there is nothing to say.
pub open spec fn excerpt_of(path: Seq<char>, log: Result<Seq<char>, Seq<char>>) -> Seq<char> {
    match log {
        Ok(contents) => if trimmed(contents).len() == 0 {
            "lxc log "@ + path + " was empty"@
        } else {
            log_tail(trimmed(contents), 4_000)
        },
        Err(error) => "failed to read lxc log "@ + path + ": "@ + error,
    }
}

/// What was read of a log file, or why it could not be read.
pub open spec fn log_of(log: Result<String, String>) -> Result<Seq<char>, Seq<char>> {
    match log {
        Ok(s) => Ok(s@),
        Err(e) => Err(e@),
    }
}

/// What is said of a log file.
pub fn lxc_log_excerpt(path: &str, log: &Result<String, String>) -> (r: String)
    ensures
        r@ == excerpt_of(path@, log_of(*log)),
{
    match log {
        Ok(contents) => {
            let t = trim(contents.as_str());
            if t.as_str().is_empty() {
                let mut r = "lxc log ".to_string();
                r.append(path);
                r.append(" was empty");
                r
            } else {
                tail_for_log(t.as_str(), 4_000)
            }
        },
        Err(error) => {
            let mut r = "failed to read lxc log ".to_string();
            r.append(path);
            r.append(": ");
            r.append(error.as_str());
            r
        },
    }
}

// ---------------------------------------------------------------------------
// Hints
// ---------------------------------------------------------------------------

/// Whether a line of the mount table is on `/proc`.
pub open spec fn is_proc_mount(line: Seq<char>) -> bool {
    words_of(line).len() > 4 && words_of(line)[4] == "/proc"@
}

/// Whether a line of the mount table shows a mount without access times.
pub open spec fn is_noatime(line: Seq<char>) -> bool {
    words_of(line).len() > 5 && pieces(words_of(line)[5], ',').contains("noatime"@)
}

/// Whether some line of the mount table is on `/proc`.
pub open spec fn any_proc_mount(lines: Seq<Seq<char>>) -> bool {
    exists|i: int| 0 <= i < lines.len() && is_proc_mount(#[trigger] lines[i])
}

/// Whether some line of the mount table shows `/proc` without access times.
pub open spec fn any_noatime(lines: Seq<Seq<char>>) -> bool {
    exists|i: int|
        0 <= i < lines.len() && is_proc_mount(#[trigger] lines[i]) && is_noatime(lines[i])
}

/// Whether `/proc` is mounted without access times; nothing where the mount table
/// does not show `/proc`.
pub open spec fn noatime_in(mountinfo: Option<Seq<char>>) -> Option<bool> {
    match mountinfo {
        Some(m) => if any_noatime(lines_of(m)) {
            Some(true)
        } else if any_proc_mount(lines_of(m)) {
            Some(false)
        } else {
            None
        },
        None => None,
    }
}

fn has_noatime(options: &str) -> (r: bool)
    ensures
        r == pieces(options@, ',').contains("noatime"@),
{
    let all = split(options, ',');
    let ghost ps = pieces(options@, ',');
    let mut i: usize = 0;
    while i < all.len()
        invariant
            ps == pieces(options@, ','),
            ps == texts(all@),
            i <= all@.len(),
            forall|j: int| 0 <= j < i ==> #[trigger] ps[j] != "noatime"@,
        decreases all@.len() - i,
    {
        proof {
            assert(ps[i as int] == all@[i as int]@);
        }
        if same(all[i].as_str(), "noatime") {
            return true;
        }
        i += 1;
    }
    false
}

/// Whether `/proc` is mounted without access times, given the mount table.
pub fn proc_mount_uses_noatime(mountinfo: Option<&str>) -> (r: Option<bool>)
    ensures
        r == noatime_in(str_of(mountinfo)),
{
    let table = match mountinfo {
        Some(m) => m,
        None => {
            return None;
        },
    };
    let all = lines(table);
    let ghost ls = lines_of(table@);
    let mut found = false;
    let mut i: usize = 0;
    while i < all.len()
        invariant
            str_of(mountinfo) == Some(table@),
            ls == lines_of(table@),
            ls == texts(all@),
            i <= all@.len(),
            forall|j: int|
                0 <= j < i ==> !(is_proc_mount(#[trigger] ls[j]) && is_noatime(ls[j])),
            found == exists|j: int| 0 <= j < i && is_proc_mount(#[trigger] ls[j]),
        decreases all@.len() - i,
    {
        proof {
            assert(ls[i as int] == all@[i as int]@);
        }
        let fields = words(all[i].as_str());
        let ghost ws = words_of(ls[i as int]);
        proof {
            assert(ws == texts(fields@));
        }
        if fields.len() > 4 && same(fields[4].as_str(), "/proc") {
            proof {
                assert(ws[4] == fields@[4]@);
                assert(is_proc_mount(ls[i as int]));
            }
            found = true;
            if fields.len() > 5 && has_noatime(fields[5].as_str()) {
                proof {
                    assert(ws[5] == fields@[5]@);
                    assert(is_noatime(ls[i as int]));
                    assert(any_noatime(ls));
                }
                return Some(true);
            }
        }
        i += 1;
    }
    proof {
        assert(found == any_proc_mount(ls));
        assert(!any_noatime(ls));
    }
    if found {
        Some(false)
    } else {
        None
    }
}

/// Whether a log shows that the container was denied its `/proc`.
pub open spec fn shows_proc_denial(log: Seq<char>) -> bool {
    occurs(log, "Failed to mount \"proc\""@) && occurs(log, "/usr/lib/"@) && occurs(
        log,
        "/lxc/rootfs/proc"@,
    ) && occurs(log, "Operation not permitted"@)
}

/// Whether a log shows that the container was denied its network device.
pub open spec fn shows_nic_denial(log: Seq<char>) -> bool {
    occurs(log, "lxc-user-nic failed to configure requested network"@) && occurs(
        log,
        "Read-only file system"@,
    ) && occurs(log, "/run/lxc/nics"@)
}

/// What is hinted at where a container was denied its `/proc`.
pub open spec fn proc_hint(proc_uses_noatime: Option<bool>) -> Seq<char> {
    match proc_uses_noatime {
        Some(true) =>
            " The statix-agent process also sees /proc mounted with noatime; unprivileged LXC can fail to mount proc from that parent mount. Remount /proc with relatime and make the matching /etc/fstab change persistent."@,
        Some(false) =>
            " If ReadWritePaths is already applied, check whether systemd ProtectKernelTunables is enabled for statix-agent; it can make proc/sys paths read-only in the service mount namespace and block LXC's procfs mount. Also check the host /proc mount options with `findmnt -no OPTIONS /proc`; unprivileged LXC can fail when /proc is mounted with noatime instead of relatime."@,
        None =>
            " If ReadWritePaths is already applied, check whether systemd ProtectKernelTunables is enabled for statix-agent; it can make proc/sys paths read-only in the service mount namespace and block LXC's procfs mount. Also check the host /proc mount options; unprivileged LXC can fail when /proc is mounted with noatime instead of relatime."@,
    }
}

/// A log excerpt with a hint behind it, where the log and the host's `/proc`
/// suggest one.
pub open spec fn hinted_by_host(log: Seq<char>, proc_uses_noatime: Option<bool>) -> Seq<char> {
    if shows_proc_denial(log) {
        log
            + "\nHint: LXC needs write access to its package rootfs mountpoint under /usr/lib/*/lxc/rootfs. If statix-agent is running under systemd with ProtectSystem=strict, add ReadWritePaths for the distro multiarch LXC rootfs path and restart the service."@
            + proc_hint(proc_uses_noatime)
    } else {
        log
    }
}

/// A log excerpt with a hint behind it, where the log suggests one.
pub open spec fn hinted(log: Seq<char>, proc_uses_noatime: Option<bool>) -> Seq<char> {
    if shows_nic_denial(log) {
        log
            + "\nHint: lxc-user-nic needs write access to /run/lxc/nics to serialize unprivileged veth allocation. If statix-agent is running under systemd with ProtectSystem=strict, add ReadWritePaths=/run/lxc and restart the service."@
    } else {
        hinted_by_host(log, proc_uses_noatime)
    }
}

/// A log excerpt with a hint behind it, where the log and the host's `/proc`
/// suggest one.
pub fn lxc_start_failure_message_with_host_context(
    log_excerpt: &str,
    proc_uses_noatime: Option<bool>,
) -> (r: String)
    ensures
        r@ == hinted_by_host(log_excerpt@, proc_uses_noatime),
{
    if contains(log_excerpt, "Failed to mount \"proc\"") && contains(log_excerpt, "/usr/lib/")
        && contains(log_excerpt, "/lxc/rootfs/proc") && contains(
        log_excerpt,
        "Operation not permitted",
    ) {
        let mut r = log_excerpt.to_owned();
        r.append(
            "\nHint: LXC needs write access to its package rootfs mountpoint under /usr/lib/*/lxc/rootfs. If statix-agent is running under systemd with ProtectSystem=strict, add ReadWritePaths for the distro multiarch LXC rootfs path and restart the service.",
        );
        match proc_uses_noatime {
            Some(true) => r.append(
                " The statix-agent process also sees /proc mounted with noatime; unprivileged LXC can fail to mount proc from that parent mount. Remount /proc with relatime and make the matching /etc/fstab change persistent.",
            ),
            Some(false) => r.append(
                " If ReadWritePaths is already applied, check whether systemd ProtectKernelTunables is enabled for statix-agent; it can make proc/sys paths read-only in the service mount namespace and block LXC's procfs mount. Also check the host /proc mount options with `findmnt -no OPTIONS /proc`; unprivileged LXC can fail when /proc is mounted with noatime instead of relatime.",
            ),
            None => r.append(
                " If ReadWritePaths is already applied, check whether systemd ProtectKernelTunables is enabled for statix-agent; it can make proc/sys paths read-only in the service mount namespace and block LXC's procfs mount. Also check the host /proc mount options; unprivileged LXC can fail when /proc is mounted with noatime instead of relatime.",
            ),
        }
        r
    } else {
        log_excerpt.to_owned()
    }
}

/// A log excerpt with a hint behind it, where the log and the mount table suggest
/// one.
pub fn lxc_start_failure_message(log_excerpt: &str, mountinfo: Option<&str>) -> (r: String)
    ensures
        r@ == hinted(log_excerpt@, noatime_in(str_of(mountinfo))),
{
    if contains(log_excerpt, "lxc-user-nic failed to configure requested network") && contains(
        log_excerpt,
        "Read-only file system",
    ) && contains(log_excerpt, "/run/lxc/nics") {
        let mut r = log_excerpt.to_owned();
        r.append(
            "\nHint: lxc-user-nic needs write access to /run/lxc/nics to serialize unprivileged veth allocation. If statix-agent is running under systemd with ProtectSystem=strict, add ReadWritePaths=/run/lxc and restart the service.",
        );
        return r;
    }
    lxc_start_failure_message_with_host_context(log_excerpt, proc_mount_uses_noatime(mountinfo))
}

// ---------------------------------------------------------------------------
// Failures of single steps
// ---------------------------------------------------------------------------

/// What is said where a container could not be made.
pub fn create_failure(name: &str, status: &str, excerpt: &str) -> (r: String)
    ensures
        r@ == "lxc-create failed for container "@ + name@ + " with "@ + status@ + ": "@ + excerpt@,
{
    let mut r = "lxc-create failed for container ".to_string();
    r.append(name);
    r.append(" with ");
    r.append(status);
    r.append(": ");
    r.append(excerpt);
    r
}

/// What is said where a container could not be started.
pub fn start_failure(
    name: &str,
    status: &str,
    excerpt: &str,
    mountinfo: Option<&str>,
) -> (r: String)
    ensures
        r@ == "lxc-start failed for container "@ + name@ + " with "@ + status@ + ": "@ + hinted(
            excerpt@,
            noatime_in(str_of(mountinfo)),
        ),
{
    let mut r = "lxc-start failed for container ".to_string();
    r.append(name);
    r.append(" with ");
    r.append(status);
    r.append(": ");
    r.append(lxc_start_failure_message(excerpt, mountinfo).as_str());
    r
}

/// What is said where a container was not seen running.
pub fn wait_failure(name: &str, status: &str, excerpt: &str) -> (r: String)
    ensures
        r@ == "lxc-wait did not observe container "@ + name@ + " running: "@ + status@ + ": "@
            + excerpt@,
{
    let mut r = "lxc-wait did not observe container ".to_string();
    r.append(name);
    r.append(" running: ");
    r.append(status);
    r.append(": ");
    r.append(excerpt);
    r
}

/// What is told of the two outputs of a command.
pub open spec fn raw_summary(stdout: Seq<char>, stderr: Seq<char>) -> Seq<char> {
    let out = trimmed(stdout);
    let err = trimmed(stderr);
    if out.len() == 0 && err.len() == 0 {
        "no output"@
    } else if err.len() == 0 {
        "stdout:\n"@ + out
    } else if out.len() == 0 {
        "stderr:\n"@ + err
    } else {
        "stdout:\n"@ + out + "\n\nstderr:\n"@ + err
    }
}

/// What is told of the two outputs of a command.
pub fn summarize_raw_texts(stdout: &str, stderr: &str) -> (r: String)
    ensures
        r@ == raw_summary(stdout@, stderr@),
{
    let out = trim(stdout);
    let err = trim(stderr);
    if out.as_str().is_empty() {
        if err.as_str().is_empty() {
            return "no output".to_string();
        }
        let mut r = "stderr:\n".to_string();
        r.append(err.as_str());
        return r;
    }
    let mut r = "stdout:\n".to_string();
    r.append(out.as_str());
    if !err.as_str().is_empty() {
        r.append("\n\nstderr:\n");
        r.append(err.as_str());
    }
    r
}

/// What is told of a command's output.
pub fn summarize_raw_command_output(output: &CommandOutput) -> (r: String)
    ensures
        r@ == raw_summary(output.out(), output.err()),
{
    let out = output.stdout_text();
    let err = output.stderr_text();
    summarize_raw_texts(out.as_str(), err.as_str())
}

/// What is said where the guest could not be given its network.
pub fn guest_network_failure(output: &CommandOutput) -> (r: String)
    ensures
        r@ == "failed to configure lxc container network with "@ + output.status@ + ": "@
            + raw_summary(output.out(), output.err()),
{
    let mut r = "failed to configure lxc container network with ".to_string();
    r.append(output.status.as_str());
    r.append(": ");
    r.append(summarize_raw_command_output(output).as_str());
    r
}

/// What is said where the guest could not be told whom to ask for names.
pub fn guest_dns_failure(output: &CommandOutput) -> (r: String)
    ensures
        r@ == "failed to configure lxc container DNS with "@ + output.status@ + ": "@
            + raw_summary(output.out(), output.err()),
{
    let mut r = "failed to configure lxc container DNS with ".to_string();
    r.append(output.status.as_str());
    r.append(": ");
    r.append(summarize_raw_command_output(output).as_str());
    r
}

// ---------------------------------------------------------------------------
// What is said
// ---------------------------------------------------------------------------

/// A text that is short enough is told whole; of a longer one the end is told.
pub proof fn tail_keeps_the_end(s: Seq<char>, n: nat)
    ensures
        s.len() <= n ==> log_tail(s, n) == s,
        s.len() > n ==> log_tail(s, n).len() == n + 3 && log_tail(s, n).skip(3) == s.skip(
            s.len() - n,
        ) && begins_with(log_tail(s, n), "..."@),
{
    reveal_strlit("...");
    if s.len() > n {
        assert(log_tail(s, n).skip(3) =~= s.skip(s.len() - n));
        assert(log_tail(s, n).take(3) =~= "..."@);
    }
}

/// A hint never takes the place of the log: the log stands first, and only a log that
/// shows a known denial gets a hint.
pub proof fn hints_stand_behind_the_log(log: Seq<char>, proc_uses_noatime: Option<bool>)
    ensures
        begins_with(hinted(log, proc_uses_noatime), log),
        begins_with(hinted_by_host(log, proc_uses_noatime), log),
        !occurs(log, "Operation not permitted"@) && !occurs(log, "Read-only file system"@)
            ==> hinted(log, proc_uses_noatime) == log,
        occurs(log, "lxc-user-nic failed to configure requested network"@) && occurs(
            log,
            "Read-only file system"@,
        ) && occurs(log, "/run/lxc/nics"@) ==> hinted(log, proc_uses_noatime).len() > log.len(),
        occurs(log, "Failed to mount \"proc\""@) && occurs(log, "/usr/lib/"@) && occurs(
            log,
            "/lxc/rootfs/proc"@,
        ) && occurs(log, "Operation not permitted"@) ==> hinted(log, proc_uses_noatime).len()
            > log.len() && hinted_by_host(log, proc_uses_noatime).len() > log.len(),
{
    reveal_strlit(
        "\nHint: LXC needs write access to its package rootfs mountpoint under /usr/lib/*/lxc/rootfs. If statix-agent is running under systemd with ProtectSystem=strict, add ReadWritePaths for the distro multiarch LXC rootfs path and restart the service.",
    );
    reveal_strlit(
        "\nHint: lxc-user-nic needs write access to /run/lxc/nics to serialize unprivileged veth allocation. If statix-agent is running under systemd with ProtectSystem=strict, add ReadWritePaths=/run/lxc and restart the service.",
    );
    assert(hinted(log, proc_uses_noatime).take(log.len() as int) =~= log);
    assert(hinted_by_host(log, proc_uses_noatime).take(log.len() as int) =~= log);
}

/// What is known of the mount of `/proc`: nothing without a line for it, else whether one
/// of its lines has the option `noatime`.
pub proof fn proc_mount_is_looked_up(mountinfo: Seq<char>, i: int)
    requires
        0 <= i < lines_of(mountinfo).len(),
        words_of(lines_of(mountinfo)[i]).len() > 4,
        words_of(lines_of(mountinfo)[i])[4] == "/proc"@,
    ensures
        noatime_in(Some(mountinfo)) is Some,
        words_of(lines_of(mountinfo)[i]).len() > 5 && pieces(
            words_of(lines_of(mountinfo)[i])[5],
            ',',
        ).contains("noatime"@) ==> noatime_in(Some(mountinfo)) == Some(true),
        noatime_in(Some(mountinfo)) == Some(true) ==> exists|j: int|
            0 <= j < lines_of(mountinfo).len() && words_of(
                #[trigger] lines_of(mountinfo)[j],
            ).len() > 5 && words_of(lines_of(mountinfo)[j])[4] == "/proc"@ && pieces(
                words_of(lines_of(mountinfo)[j])[5],
                ',',
            ).contains("noatime"@),
        noatime_in(None) is None,
{
    assert(is_proc_mount(lines_of(mountinfo)[i]));
}

/// What a command wrote is told, each output under its name.
#[verifier::rlimit(40)]
pub proof fn raw_summary_tells_both_outputs(stdout: Seq<char>, stderr: Seq<char>)
    ensures
        trimmed(stdout).len() > 0 ==> occurs(
            raw_summary(stdout, stderr),
            "stdout:\n"@ + trimmed(stdout),
        ),
        trimmed(stderr).len() > 0 ==> occurs(
            raw_summary(stdout, stderr),
            "stderr:\n"@ + trimmed(stderr),
        ),
        trimmed(stdout).len() == 0 && trimmed(stderr).len() == 0 ==> raw_summary(stdout, stderr)
            == "no output"@,
{
    let out = "stdout:\n"@ + trimmed(stdout);
    let err = "stderr:\n"@ + trimmed(stderr);
    let all = raw_summary(stdout, stderr);
    let none = Seq::<char>::empty();
    reveal_strlit("\n\nstderr:\n");
    reveal_strlit("stderr:\n");
    reveal_strlit("\n\n");
    assert("\n\nstderr:\n"@ =~= "\n\n"@ + "stderr:\n"@);
    if trimmed(stdout).len() > 0 && trimmed(stderr).len() > 0 {
        assert(all =~= none + out + ("\n\n"@ + err));
        middle_occurs(none, out, "\n\n"@ + err);
        assert(all =~= out + "\n\n"@ + err + none);
        middle_occurs(out + "\n\n"@, err, none);
    } else if trimmed(stdout).len() > 0 {
        middle_occurs(none, out, none);
        assert(all =~= none + out + none);
    } else if trimmed(stderr).len() > 0 {
        middle_occurs(none, err, none);
        assert(all =~= none + err + none);
    }
}

/// What a log holds is told, its end where it is long; where it cannot be read, the
/// reason is.
pub proof fn log_is_told(path: Seq<char>, log: Result<Seq<char>, Seq<char>>)
    ensures
        log is Ok && 0 < trimmed(log->Ok_0).len() <= 4_000 ==> excerpt_of(path, log) == trimmed(
            log->Ok_0,
        ),
        log is Ok && trimmed(log->Ok_0).len() > 4_000 ==> last_chars(excerpt_of(path, log), 4_000)
            == last_chars(trimmed(log->Ok_0), 4_000),
        log is Err ==> occurs(excerpt_of(path, log), log->Err_0) && occurs(
            excerpt_of(path, log),
            path,
        ),
{
    let none = Seq::<char>::empty();
    match log {
        Ok(contents) => {
            if trimmed(contents).len() > 4_000 {
                reveal_strlit("...");
                assert(last_chars(excerpt_of(path, log), 4_000) =~= last_chars(
                    trimmed(contents),
                    4_000,
                ));
            }
        },
        Err(error) => {
            let front = "failed to read lxc log "@;
            middle_occurs(front, path, ": "@ + error);
            assert(excerpt_of(path, log) =~= front + path + (": "@ + error));
            middle_occurs(front + path + ": "@, error, none);
            assert(excerpt_of(path, log) =~= front + path + ": "@ + error + none);
        },
    }
}

/// Where no line is about the process files, nothing is known of how they are mounted.
pub proof fn missing_proc_mount_is_noticed(mountinfo: Seq<char>)
    requires
        forall|i: int|
            0 <= i < lines_of(mountinfo).len() ==> words_of(
                #[trigger] lines_of(mountinfo)[i],
            ).len() <= 4 || words_of(lines_of(mountinfo)[i])[4] != "/proc"@,
    ensures
        noatime_in(Some(mountinfo)) is None,
{
    let all = lines_of(mountinfo);
    assert forall|i: int| 0 <= i < all.len() implies !is_proc_mount(#[trigger] all[i]) by {
        assert(words_of(lines_of(mountinfo)[i]).len() <= 4 || words_of(lines_of(mountinfo)[i])[4]
            != "/proc"@);
    }
}

} // verus!
