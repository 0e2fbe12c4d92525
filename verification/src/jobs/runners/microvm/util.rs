//! Names, defaults and messages that the virtual machines share.
use vstd::prelude::*;
use vstd::string::*;

use crate::digest::{hash_number, hash_prefix, hash_u16, short_hash};
use crate::segment::{safe_segment, segment_of};
use crate::text::{ellipsize, ellipsized, same};

verus! {

pub const DEFAULT_SSH_PORT: u16 = 2_222;

pub const DEFAULT_MEMORY_MB: u32 = 4_096;

pub const DEFAULT_CPU_COUNT: u8 = 2;

/// A text, cut where it is too long for a log.
pub fn truncate_for_log(value: &str, max_chars: usize) -> (r: String)
    ensures
        r@ == ellipsized(value@, max_chars as nat),
{
    ellipsize(value, max_chars)
}

/// The emulator for a host architecture.
pub open spec fn emulator(arch: Seq<char>) -> Option<Seq<char>> {
    if arch == "x86_64"@ {
        Some("qemu-system-x86_64"@)
    } else if arch == "aarch64"@ {
        Some("qemu-system-aarch64"@)
    } else {
        None
    }
}

/// The emulator for a host architecture; the error is a message for a reader.
pub fn qemu_binary(arch: &str) -> (r: Result<&'static str, String>)
    ensures
        match r {
            Ok(binary) => emulator(arch@) == Some(binary@),
            Err(e) => emulator(arch@) is None && e@
                == "unsupported host architecture for microvm runner: "@ + arch@,
        },
{
    proof {
        reveal_strlit("x86_64");
        reveal_strlit("aarch64");
        assert("x86_64"@.len() != "aarch64"@.len());
    }
    if same(arch, "x86_64") {
        Ok("qemu-system-x86_64")
    } else if same(arch, "aarch64") {
        Ok("qemu-system-aarch64")
    } else {
        let mut e = "unsupported host architecture for microvm runner: ".to_string();
        e.append(arch);
        Err(e)
    }
}

/// The package that holds the emulator for a host architecture.
pub fn qemu_package_hint(arch: &str) -> (r: &'static str)
    ensures
        r@ == if arch@ == "x86_64"@ {
            "qemu-system-x86"@
        } else if arch@ == "aarch64"@ {
            "qemu-system-arm"@
        } else {
            "qemu-system"@
        },
{
    if same(arch, "x86_64") {
        "qemu-system-x86"
    } else if same(arch, "aarch64") {
        "qemu-system-arm"
    } else {
        "qemu-system"
    }
}

/// What is said where a program could not be launched.
pub open spec fn missing_dependency(program: Seq<char>, debian_package: Seq<char>) -> Seq<char> {
    "failed to launch "@ + program + "; install the '"@ + debian_package
        + "' package and ensure "@ + program + " is on PATH"@
}

/// What is said where a program could not be launched.
pub fn missing_dependency_message(program: &str, debian_package: &str) -> (r: String)
    ensures
        r@ == missing_dependency(program@, debian_package@),
{
    let mut r = "failed to launch ".to_string();
    r.append(program);
    r.append("; install the '");
    r.append(debian_package);
    r.append("' package and ensure ");
    r.append(program);
    r.append(" is on PATH");
    r
}

/// Where the Ubuntu image for a host architecture lies.
pub open spec fn ubuntu_image_url(arch: Seq<char>) -> Seq<char> {
    if arch == "aarch64"@ {
        "https://cloud-images.ubuntu.com/noble/current/noble-server-cloudimg-arm64.img"@
    } else {
        "https://cloud-images.ubuntu.com/noble/current/noble-server-cloudimg-amd64.img"@
    }
}

/// Where the Ubuntu image for a host architecture lies.
pub fn canonical_ubuntu_image_url(arch: &str) -> (r: String)
    ensures
        r@ == ubuntu_image_url(arch@),
{
    if same(arch, "aarch64") {
        "https://cloud-images.ubuntu.com/noble/current/noble-server-cloudimg-arm64.img".to_string()
    } else {
        "https://cloud-images.ubuntu.com/noble/current/noble-server-cloudimg-amd64.img".to_string()
    }
}

/// The name that the image from `url` is cached under.
pub fn image_cache_key(url: &str) -> (r: String)
    ensures
        r@ == hash_prefix(url@, 64),
{
    short_hash(url, 64)
}

/// The key of the machine of a project, given the digest text of its name.
pub open spec fn vm_key_from(
    project_id: Seq<char>,
    environment: Seq<char>,
    hash: Seq<char>,
) -> Seq<char> {
    segment_of(project_id) + "-"@ + segment_of(environment) + "-"@ + hash
}

/// The key of the machine of a project.
pub open spec fn vm_key_of(project_id: Seq<char>, environment: Seq<char>) -> Seq<char> {
    vm_key_from(project_id, environment, hash_prefix(project_id + ":"@ + environment, 12))
}

/// The key of the machine of a project, given the digest text of its name.
pub fn vm_key_of_hash(project_id: &str, environment: &str, hash: &str) -> (r: String)
    ensures
        r@ == vm_key_from(project_id@, environment@, hash@),
{
    let mut r = safe_path_segment(project_id);
    r.append("-");
    r.append(safe_path_segment(environment).as_str());
    r.append("-");
    r.append(hash);
    r
}

/// The key of the machine of a project.
pub fn project_vm_key(project_id: &str, environment: &str) -> (r: String)
    ensures
        r@ == vm_key_of(project_id@, environment@),
{
    let mut name = project_id.to_owned();
    name.append(":");
    name.append(environment);
    let hash = short_hash(name.as_str(), 12);
    vm_key_of_hash(project_id, environment, hash.as_str())
}

/// The host port of the machine whose key has this digest number.
pub open spec fn ssh_port_from(hash: nat) -> u16 {
    (22_200 + hash % 1_000) as u16
}

/// The host port of the machine whose key has this digest number.
pub fn ssh_port_of_hash(hash: u16) -> (r: u16)
    ensures
        r == ssh_port_from(hash as nat),
        22_200 <= r < 23_200,
{
    22_200 + hash % 1_000
}

/// The host port through which the machine of a project is reached.
pub fn project_vm_ssh_port(vm_key: &str) -> (r: u16)
    ensures
        r == ssh_port_from(hash_number(vm_key@)),
        22_200 <= r < 23_200,
{
    let hash = hash_u16(vm_key);
    ssh_port_of_hash(hash)
}

/// A text as it stands in a path.
pub fn safe_path_segment(value: &str) -> (r: String)
    ensures
        r@ == segment_of(value@),
{
    safe_segment(value)
}

// ---------------------------------------------------------------------------
// What the names mean
// ---------------------------------------------------------------------------

/// A machine is emulated on its own architecture, with the package that brings the
/// emulator; other architectures are not supported.
pub proof fn emulator_fits_the_architecture(arch: Seq<char>)
    ensures
        emulator(arch) is Some ==> emulator(arch)->0 == "qemu-system-"@ + arch,
        emulator(arch) is Some <==> arch == "x86_64"@ || arch == "aarch64"@,
{
    reveal_strlit("qemu-system-");
    reveal_strlit("qemu-system-x86_64");
    reveal_strlit("qemu-system-aarch64");
    reveal_strlit("x86_64");
    reveal_strlit("aarch64");
    assert("qemu-system-x86_64"@ =~= "qemu-system-"@ + "x86_64"@);
    assert("qemu-system-aarch64"@ =~= "qemu-system-"@ + "aarch64"@);
}

/// The Ubuntu image is the one of the architecture: two architectures have different
/// images, and each is fetched over a secure connection.
pub proof fn ubuntu_image_fits_the_architecture(arch: Seq<char>)
    ensures
        crate::text::begins_with(ubuntu_image_url(arch), "https://cloud-images.ubuntu.com/noble/"@),
        arch == "aarch64"@ <==> crate::text::occurs(ubuntu_image_url(arch), "arm64"@),
        arch != "aarch64"@ <==> crate::text::occurs(ubuntu_image_url(arch), "amd64"@),
{
    let a = "https://cloud-images.ubuntu.com/noble/current/noble-server-cloudimg-arm64.img"@;
    let b = "https://cloud-images.ubuntu.com/noble/current/noble-server-cloudimg-amd64.img"@;
    reveal_strlit("https://cloud-images.ubuntu.com/noble/current/noble-server-cloudimg-arm64.img");
    reveal_strlit("https://cloud-images.ubuntu.com/noble/current/noble-server-cloudimg-amd64.img");
    reveal_strlit("https://cloud-images.ubuntu.com/noble/");
    reveal_strlit("arm64");
    reveal_strlit("amd64");
    assert(a.take(38) =~= "https://cloud-images.ubuntu.com/noble/"@);
    assert(b.take(38) =~= "https://cloud-images.ubuntu.com/noble/"@);
    assert(a.subrange(68, 73) =~= "arm64"@);
    assert(crate::text::occurs_at(a, "arm64"@, 68));
    assert(b.subrange(68, 73) =~= "amd64"@);
    assert(crate::text::occurs_at(b, "amd64"@, 68));
    if crate::text::occurs(a, "amd64"@) {
        let i = choose|i: int| crate::text::occurs_at(a, "amd64"@, i);
        assert(a.subrange(i, i + 5)[3] == a[i + 3]);
        assert("amd64"@[3] == '6' && "amd64"@[1] == 'm');
        assert(a[i + 3] == '6');
        assert(i + 3 == 71);
        assert(a.subrange(i, i + 5)[1] == a[i + 1]);
    }
    if crate::text::occurs(b, "arm64"@) {
        let i = choose|i: int| crate::text::occurs_at(b, "arm64"@, i);
        assert(b.subrange(i, i + 5)[3] == b[i + 3]);
        assert("arm64"@[3] == '6' && "arm64"@[1] == 'r');
        assert(b[i + 3] == '6');
        assert(i + 3 == 71);
        assert(b.subrange(i, i + 5)[1] == b[i + 1]);
    }
}

/// The key of a machine is the key that its network is filed under, with a digest behind
/// it that tells apart what only looks alike in a path.
pub proof fn machine_is_named_after_its_project(project_id: Seq<char>, environment: Seq<char>)
    ensures
        vm_key_of(project_id, environment) == crate::networking::naming::key_of(
            project_id,
            environment,
        ) + "-"@ + hash_prefix(project_id + ":"@ + environment, 12),
{
    assert(vm_key_of(project_id, environment) =~= crate::networking::naming::key_of(
        project_id,
        environment,
    ) + "-"@ + hash_prefix(project_id + ":"@ + environment, 12));
}

/// The port of a machine lies in a range of a thousand ports, and all of them are used.
pub proof fn machine_ports_fill_their_range(hash: nat, port: u16)
    ensures
        22_200 <= ssh_port_from(hash) < 23_200,
        ssh_port_from(hash) == ssh_port_from(hash + 1_000),
        22_200 <= port < 23_200 ==> ssh_port_from((port - 22_200) as nat) == port,
        hash % 1_000 != 999 ==> ssh_port_from(hash + 1) == ssh_port_from(hash) + 1,
{
}

/// What is told of a missing program names the program, the package that has it, and the
/// program once more.
pub proof fn missing_program_is_named(program: Seq<char>, debian_package: Seq<char>)
    ensures
        ({
            let text = missing_dependency(program, debian_package);
            let front = "failed to launch "@ + program + "; install the '"@;
            &&& crate::text::begins_with(text, front + debian_package)
            &&& crate::text::occurs(text, program + " is on PATH"@)
        }),
{
    let text = missing_dependency(program, debian_package);
    let whole = "failed to launch "@ + program + "; install the '"@ + debian_package;
    let before = whole + "' package and ensure "@;
    crate::text::parts_are_found(whole, "' package and ensure "@, program);
    crate::text::parts_are_found(before, program, " is on PATH"@);
    crate::text::prefix_of_prefix(text, before, whole);
}

} // verus!
