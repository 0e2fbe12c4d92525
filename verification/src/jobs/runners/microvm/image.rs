//! The disks of a machine: its base image, its overlay and its first boot.
use vstd::prelude::*;
use vstd::string::*;

use crate::digest::hash_prefix;
use crate::netaddr::{ipv4_text, Ipv4Addr};
use crate::networking::{LeaseModel, VmNetworkLease};
use crate::paths::{below, join_path};
use crate::segment::segment_of;
use crate::text::{
    append_decimal, begins_with, decimal, no_texts, push_text, same, starts_with, texts, trim,
    trimmed,
};

use super::util::{
    canonical_ubuntu_image_url, image_cache_key, safe_path_segment, ubuntu_image_url,
};

verus! {

/// Where the base image of a machine comes from.
#[derive(Debug)]
pub enum BaseImage {
    /// A file on the host.
    Local(String),
    /// An image from elsewhere, and the file that it is kept in.
    Remote { url: String, cached: String },
}

/// Why there is no base image.
#[derive(Debug)]
pub enum ImageError {
    Empty,
    Unsupported(String),
}

pub enum BaseImageModel {
    Local(Seq<char>),
    Remote(Seq<char>, Seq<char>),
    Empty,
    Unsupported(Seq<char>),
}

/// The address of the image that a reference names, if it names one.
pub open spec fn image_url(reference: Seq<char>, arch: Seq<char>) -> Option<Seq<char>> {
    if reference == "ubuntu-24.04"@ || reference == "ubuntu-24.04-lts"@ || reference
        == "ubuntu-noble"@ {
        Some(ubuntu_image_url(arch))
    } else if begins_with(reference, "http://"@) || begins_with(reference, "https://"@) {
        Some(reference)
    } else {
        None
    }
}

/// The directory that images are kept in.
pub open spec fn image_dir(runtime_root: Seq<char>) -> Seq<char> {
    below(runtime_root, "images"@)
}

/// The file that the image with this digest text is kept in.
pub open spec fn image_file(runtime_root: Seq<char>, hash: Seq<char>) -> Seq<char> {
    below(image_dir(runtime_root), hash + ".img"@)
}

/// Where the base image comes from: a reference that is a path of the host
/// stands for that file.
pub open spec fn base_image_of(
    image: Seq<char>,
    path_exists: bool,
    arch: Seq<char>,
    runtime_root: Seq<char>,
) -> BaseImageModel {
    let reference = trimmed(image);
    if reference.len() == 0 {
        BaseImageModel::Empty
    } else if path_exists {
        BaseImageModel::Local(reference)
    } else {
        match image_url(reference, arch) {
            Some(url) => BaseImageModel::Remote(
                url,
                image_file(runtime_root, hash_prefix(url, 64)),
            ),
            None => BaseImageModel::Unsupported(reference),
        }
    }
}

/// What a result says of the base image.
pub open spec fn base_image_model(r: Result<BaseImage, ImageError>) -> BaseImageModel {
    match r {
        Ok(BaseImage::Local(path)) => BaseImageModel::Local(path@),
        Ok(BaseImage::Remote { url, cached }) => BaseImageModel::Remote(url@, cached@),
        Err(ImageError::Empty) => BaseImageModel::Empty,
        Err(ImageError::Unsupported(reference)) => BaseImageModel::Unsupported(reference@),
    }
}

impl ImageError {
    pub open spec fn text(&self) -> Seq<char> {
        match self {
            ImageError::Empty => "microvm image must not be empty"@,
            ImageError::Unsupported(reference) => "unsupported microvm image reference: "@
                + reference@,
        }
    }

    /// What the error says to a reader.
    pub fn message(&self) -> (r: String)
        ensures
            r@ == self.text(),
    {
        match self {
            ImageError::Empty => "microvm image must not be empty".to_string(),
            ImageError::Unsupported(reference) => {
                let mut r = "unsupported microvm image reference: ".to_string();
                r.append(reference.as_str());
                r
            },
        }
    }
}

/// The reference to an image as it is read.
pub fn image_reference(image: &str) -> (r: String)
    ensures
        r@ == trimmed(image@),
{
    trim(image)
}

fn url_of(reference: &str, arch: &str) -> (r: Option<String>)
    ensures
        crate::text::text_of(r) == image_url(reference@, arch@),
{
    if same(reference, "ubuntu-24.04") || same(reference, "ubuntu-24.04-lts") || same(
        reference,
        "ubuntu-noble",
    ) {
        Some(canonical_ubuntu_image_url(arch))
    } else if starts_with(reference, "http://") || starts_with(reference, "https://") {
        Some(reference.to_owned())
    } else {
        None
    }
}

/// The directory that images are kept in.
pub fn image_cache_dir(runtime_root: &str) -> (r: String)
    ensures
        r@ == image_dir(runtime_root@),
{
    join_path(runtime_root, "images")
}

/// The file that the image with this digest text is kept in.
pub fn image_file_of_hash(runtime_root: &str, hash: &str) -> (r: String)
    ensures
        r@ == image_file(runtime_root@, hash@),
{
    let dir = image_cache_dir(runtime_root);
    let mut name = hash.to_owned();
    name.append(".img");
    join_path(dir.as_str(), name.as_str())
}

/// Where the base image comes from; `path_exists` says whether the reference is the
/// path of something on the host.
pub fn resolve_base_image(
    image: &str,
    path_exists: bool,
    arch: &str,
    runtime_root: &str,
) -> (r: Result<BaseImage, ImageError>)
    ensures
        base_image_model(r) == base_image_of(image@, path_exists, arch@, runtime_root@),
{
    let reference = trim(image);
    if reference.as_str().is_empty() {
        return Err(ImageError::Empty);
    }
    if path_exists {
        return Ok(BaseImage::Local(reference));
    }
    match url_of(reference.as_str(), arch) {
        Some(url) => {
            let hash = image_cache_key(url.as_str());
            let cached = image_file_of_hash(runtime_root, hash.as_str());
            Ok(BaseImage::Remote { url, cached })
        },
        None => Err(ImageError::Unsupported(reference)),
    }
}

/// The names of the Ubuntu image, where they are no path of the host, stand for the
/// cloud image of the architecture, whatever white space is around them.
pub proof fn ubuntu_names_are_known(image: Seq<char>, arch: Seq<char>, runtime_root: Seq<char>)
    requires
        trimmed(image) == "ubuntu-24.04"@ || trimmed(image) == "ubuntu-24.04-lts"@ || trimmed(image)
            == "ubuntu-noble"@,
    ensures
        ({
            let url = if arch == "aarch64"@ {
                "https://cloud-images.ubuntu.com/noble/current/noble-server-cloudimg-arm64.img"@
            } else {
                "https://cloud-images.ubuntu.com/noble/current/noble-server-cloudimg-amd64.img"@
            };
            base_image_of(image, false, arch, runtime_root) matches BaseImageModel::Remote(u, _)
                && u == url
        }),
{
    reveal_strlit("ubuntu-24.04");
    reveal_strlit("ubuntu-24.04-lts");
    reveal_strlit("ubuntu-noble");
}

/// An address of an image stands for itself, on whatever architecture.
pub proof fn addresses_are_taken_as_they_are(
    rest: Seq<char>,
    secure: bool,
    image: Seq<char>,
    arch: Seq<char>,
    runtime_root: Seq<char>,
)
    requires
        trimmed(image) == (if secure {
            "https://"@
        } else {
            "http://"@
        }) + rest,
    ensures
        base_image_of(image, false, arch, runtime_root) matches BaseImageModel::Remote(u, _) && u
            == trimmed(image),
{
    reveal_strlit("ubuntu-24.04");
    reveal_strlit("ubuntu-24.04-lts");
    reveal_strlit("ubuntu-noble");
    reveal_strlit("http://");
    reveal_strlit("https://");
    let r = trimmed(image);
    assert(r[0] == 'h');
    assert("ubuntu-24.04"@[0] == 'u' && "ubuntu-24.04-lts"@[0] == 'u' && "ubuntu-noble"@[0] == 'u');
    if secure {
        crate::text::beginning_is_a_front(r, "https://"@);
    } else {
        crate::text::beginning_is_a_front(r, "http://"@);
    }
}

/// What the reference of an image can come to: nothing where it is blank, the file where
/// it is a path of the host, else an image from elsewhere or a refusal; and it is refused
/// only where it is no name of the Ubuntu image and no address.
pub proof fn references_are_sorted_out(
    image: Seq<char>,
    path_exists: bool,
    arch: Seq<char>,
    runtime_root: Seq<char>,
)
    ensures
        ({
            let r = trimmed(image);
            match base_image_of(image, path_exists, arch, runtime_root) {
                BaseImageModel::Empty => r.len() == 0,
                BaseImageModel::Local(path) => r.len() > 0 && path_exists && path == r,
                BaseImageModel::Unsupported(named) => {
                    &&& r.len() > 0 && !path_exists && named == r
                    &&& r != "ubuntu-24.04"@ && r != "ubuntu-24.04-lts"@ && r != "ubuntu-noble"@
                    &&& !begins_with(r, "http://"@) && !begins_with(r, "https://"@)
                },
                BaseImageModel::Remote(url, cached) => r.len() > 0 && !path_exists,
            }
        }),
        path_exists && trimmed(image).len() > 0 ==> base_image_of(
            image,
            path_exists,
            arch,
            runtime_root,
        ) is Local,
{
}

/// An image from elsewhere is kept below the directory of the machine, in one file for
/// each address: the same address gives the same file, and addresses with different
/// digests give different files.
pub proof fn each_address_has_its_file(
    image: Seq<char>,
    other: Seq<char>,
    arch: Seq<char>,
    runtime_root: Seq<char>,
)
    requires
        base_image_of(image, false, arch, runtime_root) is Remote,
        base_image_of(other, false, arch, runtime_root) is Remote,
        crate::digest::is_digest(hash_prefix(url_in(image, arch, runtime_root), 64)),
        crate::digest::is_digest(hash_prefix(url_in(other, arch, runtime_root), 64)),
    ensures
        ({
            let a = url_in(image, arch, runtime_root);
            let b = url_in(other, arch, runtime_root);
            let x = file_in(image, arch, runtime_root);
            let y = file_in(other, arch, runtime_root);
            &&& x == y <==> hash_prefix(a, 64) == hash_prefix(b, 64)
            &&& begins_with(x, image_dir(runtime_root))
        }),
{
    let dir = image_dir(runtime_root);
    let a = hash_prefix(url_in(image, arch, runtime_root), 64);
    let b = hash_prefix(url_in(other, arch, runtime_root), 64);
    crate::paths::path_begins_with_its_base(dir, a + ".img"@);
    crate::paths::path_begins_with_its_base(dir, b + ".img"@);
    let x = file_in(image, arch, runtime_root);
    let y = file_in(other, arch, runtime_root);
    assert(a[0] != '/' && b[0] != '/');
    reveal_strlit(".img");
    assert((a + ".img"@).take(64) =~= a);
    assert((b + ".img"@).take(64) =~= b);
}

/// The address that a reference comes to.
pub open spec fn url_in(image: Seq<char>, arch: Seq<char>, runtime_root: Seq<char>) -> Seq<char> {
    base_image_of(image, false, arch, runtime_root)->Remote_0
}

/// The file that the image of a reference is kept in.
pub open spec fn file_in(image: Seq<char>, arch: Seq<char>, runtime_root: Seq<char>) -> Seq<char> {
    base_image_of(image, false, arch, runtime_root)->Remote_1
}

// ---------------------------------------------------------------------------
// Commands
// ---------------------------------------------------------------------------

/// The arguments of `qemu-img` that make an overlay over a base image.
pub fn overlay_args(base_image: &str, overlay_image: &str) -> (r: Vec<String>)
    ensures
        texts(r@) == seq![
            "create"@,
            "-f"@,
            "qcow2"@,
            "-F"@,
            "qcow2"@,
            "-b"@,
            base_image@,
            overlay_image@,
        ],
{
    let mut r = no_texts();
    push_text(&mut r, "create");
    push_text(&mut r, "-f");
    push_text(&mut r, "qcow2");
    push_text(&mut r, "-F");
    push_text(&mut r, "qcow2");
    push_text(&mut r, "-b");
    push_text(&mut r, base_image);
    push_text(&mut r, overlay_image);
    r
}

/// The arguments of `ssh-keygen` that make a key pair without a passphrase.
pub fn keypair_args(private_key: &str) -> (r: Vec<String>)
    ensures
        texts(r@) == seq!["-q"@, "-t"@, "ed25519"@, "-N"@, ""@, "-f"@, private_key@],
{
    let mut r = no_texts();
    push_text(&mut r, "-q");
    push_text(&mut r, "-t");
    push_text(&mut r, "ed25519");
    push_text(&mut r, "-N");
    push_text(&mut r, "");
    push_text(&mut r, "-f");
    push_text(&mut r, private_key);
    r
}

/// The arguments of `tar` that archive a directory.
pub open spec fn archive_arguments(archive_path: Seq<char>, workdir: Seq<char>) -> Seq<Seq<char>> {
    seq!["-C"@, workdir, "-czf"@, archive_path, "."@]
}

/// The arguments of `tar` that archive a directory.
pub fn archive_args(archive_path: &str, workdir: &str) -> (r: Vec<String>)
    ensures
        texts(r@) == archive_arguments(archive_path@, workdir@),
{
    let mut r = no_texts();
    push_text(&mut r, "-C");
    push_text(&mut r, workdir);
    push_text(&mut r, "-czf");
    push_text(&mut r, archive_path);
    push_text(&mut r, ".");
    r
}

/// What is said where an overlay could not be made.
pub fn judge_overlay(success: bool) -> (r: Result<(), String>)
    ensures
        match r {
            Ok(_) => success,
            Err(e) => !success && e@ == "qemu-img failed to create overlay disk"@,
        },
{
    if success {
        Ok(())
    } else {
        Err("qemu-img failed to create overlay disk".to_string())
    }
}

/// What is said where a key pair could not be made, or its public key is missing.
pub fn judge_keypair(success: bool, public_key_exists: bool) -> (r: Result<(), String>)
    ensures
        match r {
            Ok(_) => success && public_key_exists,
            Err(e) => if !success {
                e@ == "ssh-keygen failed to create guest keypair"@
            } else {
                !public_key_exists && e@ == "ssh-keygen did not create a public key"@
            },
        },
{
    if !success {
        Err("ssh-keygen failed to create guest keypair".to_string())
    } else if !public_key_exists {
        Err("ssh-keygen did not create a public key".to_string())
    } else {
        Ok(())
    }
}

/// What is said where a workspace could not be archived for a job that runs in
/// `place`.
pub fn judge_archive(success: bool, place: &str) -> (r: Result<(), String>)
    ensures
        match r {
            Ok(_) => success,
            Err(e) => !success && e@ == "failed to archive workspace for "@ + place@
                + " execution"@,
        },
{
    if success {
        return Ok(());
    }
    let mut e = "failed to archive workspace for ".to_string();
    e.append(place);
    e.append(" execution");
    Err(e)
}

/// What is said where the seed of the first boot could not be made.
pub fn judge_seed(success: bool) -> (r: Result<(), String>)
    ensures
        match r {
            Ok(_) => success,
            Err(e) => !success && e@ == "cloud-localds failed to create the seed image"@,
        },
{
    if success {
        Ok(())
    } else {
        Err("cloud-localds failed to create the seed image".to_string())
    }
}

// ---------------------------------------------------------------------------
// The first boot
// ---------------------------------------------------------------------------

/// The user of the guest, set up to be reached with a key alone.
pub open spec fn user_data_text(public_key: Seq<char>) -> Seq<char> {
    "#cloud-config\nusers:\n  - name: statix\n    groups: [sudo]\n    shell: /bin/bash\n    sudo: ALL=(ALL) NOPASSWD:ALL\n    ssh_authorized_keys:\n      - "@
        + trimmed(public_key) + "\nssh_pwauth: false\ndisable_root: true\n"@
}

/// The user of the guest, set up to be reached with a key alone.
pub fn user_data(public_key: &str) -> (r: String)
    ensures
        r@ == user_data_text(public_key@),
{
    let mut r =
        "#cloud-config\nusers:\n  - name: statix\n    groups: [sudo]\n    shell: /bin/bash\n    sudo: ALL=(ALL) NOPASSWD:ALL\n    ssh_authorized_keys:\n      - ".to_string();
    r.append(trim(public_key).as_str());
    r.append("\nssh_pwauth: false\ndisable_root: true\n");
    r
}

/// The identity of the guest.
pub open spec fn meta_data_text(instance_id: Seq<char>) -> Seq<char> {
    "instance-id: statix-"@ + segment_of(instance_id) + "\nlocal-hostname: statix-microvm\n"@
}

/// The identity of the guest.
pub fn meta_data(instance_id: &str) -> (r: String)
    ensures
        r@ == meta_data_text(instance_id@),
{
    let mut r = "instance-id: statix-".to_string();
    r.append(safe_path_segment(instance_id).as_str());
    r.append("\nlocal-hostname: statix-microvm\n");
    r
}

/// The network of the guest, behind a gateway that also resolves names.
pub open spec fn network_config_text(network: LeaseModel, gateway: Ipv4Addr) -> Seq<char> {
    "version: 2\nethernets:\n  statix0:\n    match:\n      macaddress: \""@ + network.mac_address
        + "\"\n    set-name: statix0\n    addresses:\n      - "@ + ipv4_text(network.vm_ip) + "/"@
        + decimal(network.prefix_len as nat) + "\n    gateway4: "@ + ipv4_text(gateway)
        + "\n    nameservers:\n      addresses:\n        - "@ + ipv4_text(gateway) + "\n"@
}

/// The network of the guest, behind a gateway that also resolves names.
pub fn network_config(network: &VmNetworkLease, gateway: &Ipv4Addr) -> (r: String)
    ensures
        r@ == network_config_text(network@, *gateway),
{
    let mut r =
        "version: 2\nethernets:\n  statix0:\n    match:\n      macaddress: \"".to_string();
    r.append(network.mac_address.as_str());
    r.append("\"\n    set-name: statix0\n    addresses:\n      - ");
    network.vm_ip.append_to(&mut r);
    r.append("/");
    append_decimal(&mut r, network.prefix_len as u64);
    r.append("\n    gateway4: ");
    gateway.append_to(&mut r);
    r.append("\n    nameservers:\n      addresses:\n        - ");
    gateway.append_to(&mut r);
    r.append("\n");
    r
}

/// The files that the seed image of a machine is made of.
#[derive(Debug)]
pub struct SeedFiles {
    pub seed_iso: String,
    pub user_data: String,
    pub meta_data: String,
    pub network_config: String,
}

/// The files that the seed image of the machine in `runtime_root` is made of.
pub fn seed_files(runtime_root: &str) -> (r: SeedFiles)
    ensures
        r.seed_iso@ == below(runtime_root@, "seed.iso"@),
        r.user_data@ == below(runtime_root@, "seed.user-data"@),
        r.meta_data@ == below(runtime_root@, "seed.meta-data"@),
        r.network_config@ == below(runtime_root@, "seed.network-config"@),
{
    SeedFiles {
        seed_iso: join_path(runtime_root, "seed.iso"),
        user_data: join_path(runtime_root, "seed.user-data"),
        meta_data: join_path(runtime_root, "seed.meta-data"),
        network_config: join_path(runtime_root, "seed.network-config"),
    }
}

/// The arguments of `cloud-localds` that make the seed image.
pub open spec fn seed_arguments(files: SeedFiles, has_network: bool) -> Seq<Seq<char>> {
    if has_network {
        seq![
            files.seed_iso@,
            "--network-config"@,
            files.network_config@,
            files.user_data@,
            files.meta_data@,
        ]
    } else {
        seq![files.seed_iso@, files.user_data@, files.meta_data@]
    }
}

/// The arguments of `cloud-localds` that make the seed image.
pub fn seed_args(files: &SeedFiles, has_network: bool) -> (r: Vec<String>)
    ensures
        texts(r@) == seed_arguments(*files, has_network),
{
    let mut r = no_texts();
    push_text(&mut r, files.seed_iso.as_str());
    if has_network {
        push_text(&mut r, "--network-config");
        push_text(&mut r, files.network_config.as_str());
    }
    push_text(&mut r, files.user_data.as_str());
    push_text(&mut r, files.meta_data.as_str());
    r
}

/// The user of a guest is reached with the public key that was made for it.
pub proof fn user_has_the_key(public_key: Seq<char>)
    ensures
        crate::text::occurs(user_data_text(public_key), trimmed(public_key)),
{
    let front =
        "#cloud-config\nusers:\n  - name: statix\n    groups: [sudo]\n    shell: /bin/bash\n    sudo: ALL=(ALL) NOPASSWD:ALL\n    ssh_authorized_keys:\n      - "@;
    crate::text::middle_occurs(
        front,
        trimmed(public_key),
        "\nssh_pwauth: false\ndisable_root: true\n"@,
    );
}

/// The configuration of the guest's network names the hardware address and the address
/// of the lease, with the length of its prefix, and the gateway.
pub proof fn guest_network_is_its_lease(network: LeaseModel, gateway: Ipv4Addr)
    ensures
        ({
            let text = network_config_text(network, gateway);
            &&& crate::text::occurs(text, "macaddress: \""@ + network.mac_address + "\""@)
            &&& crate::text::occurs(
                text,
                "- "@ + ipv4_text(network.vm_ip) + "/"@ + decimal(network.prefix_len as nat)
                    + "\n"@,
            )
            &&& crate::text::occurs(text, "gateway4: "@ + ipv4_text(gateway) + "\n"@)
        }),
{
    let text = network_config_text(network, gateway);
    let ip = ipv4_text(network.vm_ip);
    let len = decimal(network.prefix_len as nat);
    let gw = ipv4_text(gateway);
    let head = "version: 2\nethernets:\n  statix0:\n    match:\n      macaddress: \""@;
    let mid = "\"\n    set-name: statix0\n    addresses:\n      - "@;
    let via = "\n    gateway4: "@;
    let names = "\n    nameservers:\n      addresses:\n        - "@;
    reveal_strlit("version: 2\nethernets:\n  statix0:\n    match:\n      macaddress: \"");
    reveal_strlit("\"\n    set-name: statix0\n    addresses:\n      - ");
    reveal_strlit("\n    gateway4: ");
    reveal_strlit("\n    nameservers:\n      addresses:\n        - ");
    reveal_strlit("macaddress: \"");
    reveal_strlit("\"");
    reveal_strlit("- ");
    reveal_strlit("/");
    reveal_strlit("\n");
    reveal_strlit("gateway4: ");
    let a = "macaddress: \""@ + network.mac_address + "\""@;
    let at = head.len() - "macaddress: \""@.len();
    assert(text.subrange(at, at + a.len()) =~= a);
    assert(crate::text::occurs_at(text, a, at));
    let b = "- "@ + ip + "/"@ + len + "\n"@;
    let bt = head.len() + network.mac_address.len() + mid.len() - 2;
    assert(text.subrange(bt, bt + b.len()) =~= b);
    assert(crate::text::occurs_at(text, b, bt));
    let c = "gateway4: "@ + gw + "\n"@;
    let ct = bt + b.len() - 1 + via.len() - "gateway4: "@.len();
    assert(text.subrange(ct, ct + c.len()) =~= c);
    assert(crate::text::occurs_at(text, c, ct));
}

/// The seed image is made of the user and the identity of the guest, and of its network
/// where it has one.
pub proof fn seed_holds_what_the_guest_needs(files: SeedFiles, has_network: bool)
    ensures
        ({
            let args = seed_arguments(files, has_network);
            &&& args[0] == files.seed_iso@
            &&& args.contains(files.user_data@)
            &&& args.contains(files.meta_data@)
            &&& has_network ==> args[1] == "--network-config"@ && args[2] == files.network_config@
            &&& !has_network ==> args.len() == 3
        }),
{
    let args = seed_arguments(files, has_network);
    assert(args[args.len() - 2] == files.user_data@);
    assert(args[args.len() - 1] == files.meta_data@);
}

/// A workspace is archived from its own directory, all of it, into the file that is asked
/// for.
pub proof fn workspace_is_archived_whole(archive_path: Seq<char>, workdir: Seq<char>)
    ensures
        ({
            let args = archive_arguments(archive_path, workdir);
            &&& args[0] == "-C"@ && args[1] == workdir
            &&& args[2] == "-czf"@ && args[3] == archive_path
            &&& args.last() == "."@ && args.len() == 5
        }),
{
}

} // verus!
