//! The host commands that set networks up, and what their failures mean.
use vstd::prelude::*;
use vstd::string::*;

use crate::netaddr::ipv4_text;
use crate::process::{command_detail, telling_text, CommandOutput};
use crate::text::{
    append_decimal, contains, decimal, join, joined, no_texts, occurs, push_text, same, texts,
};

use super::state::{BridgeModel, BridgeState};

verus! {

/// The argument lists of a list of commands.
pub open spec fn argument_lists(v: Seq<Vec<String>>) -> Seq<Seq<Seq<char>>> {
    Seq::new(v.len(), |i: int| texts(v[i]@))
}

fn push_command(v: &mut Vec<Vec<String>>, args: Vec<String>)
    ensures
        argument_lists(final(v)@) == argument_lists(old(v)@).push(texts(args@)),
{
    let ghost before = v@;
    v.push(args);
    proof {
        assert(argument_lists(v@) =~= argument_lists(before).push(texts(args@)));
    }
}

fn no_commands() -> (r: Vec<Vec<String>>)
    ensures
        argument_lists(r@) == Seq::<Seq<Seq<char>>>::empty(),
{
    let r: Vec<Vec<String>> = Vec::new();
    proof {
        assert(argument_lists(r@) =~= Seq::<Seq<Seq<char>>>::empty());
    }
    r
}

// ---------------------------------------------------------------------------
// Failures
// ---------------------------------------------------------------------------

/// What the failure of a command is reported as.
pub open spec fn failure_text(
    program: Seq<char>,
    args: Seq<Seq<char>>,
    status: Seq<char>,
    detail: Seq<char>,
) -> Seq<char> {
    let command = program + " "@ + joined(args, " "@);
    if program == "ip"@ && occurs(detail, "Operation not permitted"@) {
        "network setup requires CAP_NET_ADMIN or root privileges; `"@ + command + "` failed: "@
            + detail
    } else if program == "ip"@ && (occurs(detail, "does not exist"@) || occurs(
        detail,
        "Cannot find device"@,
    )) {
        "`"@ + command + "` failed because the network device was not found: "@ + detail
    } else if detail.len() == 0 {
        "`"@ + command + "` failed with "@ + status
    } else {
        "`"@ + command + "` failed with "@ + status + ": "@ + detail
    }
}

/// What the failure of a command is reported as, given what tells most about it.
pub fn failure_message(program: &str, args: &Vec<String>, status: &str, detail: &str) -> (r: String)
    ensures
        r@ == failure_text(program@, texts(args@), status@, detail@),
{
    let mut command = program.to_owned();
    command.append(" ");
    command.append(join(args, " ").as_str());
    let is_ip = same(program, "ip");
    if is_ip && contains(detail, "Operation not permitted") {
        let mut r = "network setup requires CAP_NET_ADMIN or root privileges; `".to_string();
        r.append(command.as_str());
        r.append("` failed: ");
        r.append(detail);
        return r;
    }
    let mut r = "`".to_string();
    r.append(command.as_str());
    if is_ip && (contains(detail, "does not exist") || contains(detail, "Cannot find device")) {
        r.append("` failed because the network device was not found: ");
        r.append(detail);
        return r;
    }
    r.append("` failed with ");
    r.append(status);
    if !detail.is_empty() {
        r.append(": ");
        r.append(detail);
    }
    r
}

/// What the failure of a command is reported as.
pub fn command_failure(program: &str, args: &Vec<String>, output: &CommandOutput) -> (r: String)
    ensures
        r@ == failure_text(
            program@,
            texts(args@),
            output.status@,
            telling_text(output.out(), output.err()),
        ),
{
    let detail = command_detail(output);
    failure_message(program, args, output.status.as_str(), detail.as_str())
}

/// What a command that ended has to say: its output, or the report of its
/// failure.
pub fn command_output(
    program: &str,
    args: &Vec<String>,
    output: &CommandOutput,
) -> (r: Result<String, String>)
    ensures
        match r {
            Ok(text) => output.success && text@ == output.out(),
            Err(report) => !output.success && report@ == failure_text(
                program@,
                texts(args@),
                output.status@,
                telling_text(output.out(), output.err()),
            ),
        },
{
    if output.success {
        Ok(output.stdout_text())
    } else {
        Err(command_failure(program, args, output))
    }
}

// ---------------------------------------------------------------------------
// Devices
// ---------------------------------------------------------------------------

/// The arguments of `ip` that show a device.
pub fn show_link_args(name: &str) -> (r: Vec<String>)
    ensures
        texts(r@) == seq!["link"@, "show"@, "dev"@, name@],
{
    let mut r = no_texts();
    push_text(&mut r, "link");
    push_text(&mut r, "show");
    push_text(&mut r, "dev");
    push_text(&mut r, name);
    r
}

/// The arguments of `ip` that delete a device.
pub fn delete_link_args(name: &str) -> (r: Vec<String>)
    ensures
        texts(r@) == seq!["link"@, "delete"@, name@],
{
    let mut r = no_texts();
    push_text(&mut r, "link");
    push_text(&mut r, "delete");
    push_text(&mut r, name);
    r
}

/// The arguments of `ip` that list the addresses of a device.
pub fn show_address_args(name: &str) -> (r: Vec<String>)
    ensures
        texts(r@) == seq!["-4"@, "-o"@, "addr"@, "show"@, "dev"@, name@],
{
    let mut r = no_texts();
    push_text(&mut r, "-4");
    push_text(&mut r, "-o");
    push_text(&mut r, "addr");
    push_text(&mut r, "show");
    push_text(&mut r, "dev");
    push_text(&mut r, name);
    r
}

/// The address of a bridge with the length of its network prefix.
pub open spec fn bridge_cidr(bridge: BridgeModel) -> Seq<char> {
    ipv4_text(bridge.gateway) + "/"@ + decimal(bridge.prefix_len as nat)
}

/// The commands of `ip` that make the bridge where there is none.
pub open spec fn bridge_link_commands(
    bridge: BridgeModel,
    link_exists: bool,
) -> Seq<Seq<Seq<char>>> {
    if link_exists {
        Seq::empty()
    } else {
        seq![seq!["link"@, "add"@, "name"@, bridge.name, "type"@, "bridge"@]]
    }
}

/// The commands of `ip` that give the bridge its address, where the listing of
/// its addresses does not show it, and bring the bridge up.
pub open spec fn bridge_address_commands(
    bridge: BridgeModel,
    addresses: Seq<char>,
) -> Seq<Seq<Seq<char>>> {
    let up = seq!["link"@, "set"@, "dev"@, bridge.name, "up"@];
    if occurs(addresses, bridge_cidr(bridge)) {
        seq![up]
    } else {
        seq![seq!["addr"@, "replace"@, bridge_cidr(bridge), "dev"@, bridge.name], up]
    }
}

/// The commands of `ip` that make the bridge where there is none.
pub fn bridge_link_plan(bridge: &BridgeState, link_exists: bool) -> (r: Vec<Vec<String>>)
    ensures
        argument_lists(r@) == bridge_link_commands(bridge@, link_exists),
{
    let mut r = no_commands();
    if !link_exists {
        let mut a = no_texts();
        push_text(&mut a, "link");
        push_text(&mut a, "add");
        push_text(&mut a, "name");
        push_text(&mut a, bridge.name.as_str());
        push_text(&mut a, "type");
        push_text(&mut a, "bridge");
        proof {
            assert(texts(a@) =~= bridge_link_commands(bridge@, false)[0]);
        }
        push_command(&mut r, a);
    }
    r
}

/// The commands of `ip` that give the bridge its address and bring it up, where
/// `addresses` lists the addresses that it has.
pub fn bridge_address_plan(bridge: &BridgeState, addresses: &str) -> (r: Vec<Vec<String>>)
    ensures
        argument_lists(r@) == bridge_address_commands(bridge@, addresses@),
{
    let mut cidr = bridge.gateway.to_text();
    cidr.append("/");
    append_decimal(&mut cidr, bridge.prefix_len as u64);
    let mut r = no_commands();
    if !contains(addresses, cidr.as_str()) {
        let mut a = no_texts();
        push_text(&mut a, "addr");
        push_text(&mut a, "replace");
        push_text(&mut a, cidr.as_str());
        push_text(&mut a, "dev");
        push_text(&mut a, bridge.name.as_str());
        proof {
            assert(texts(a@) =~= bridge_address_commands(bridge@, addresses@)[0]);
        }
        push_command(&mut r, a);
    }
    let mut up = no_texts();
    push_text(&mut up, "link");
    push_text(&mut up, "set");
    push_text(&mut up, "dev");
    push_text(&mut up, bridge.name.as_str());
    push_text(&mut up, "up");
    proof {
        assert(texts(up@) =~= bridge_address_commands(bridge@, addresses@).last());
    }
    push_command(&mut r, up);
    r
}

/// The commands of `ip` that make a tap device of a user where there is none,
/// tie it to the bridge and bring it up.
pub open spec fn tap_commands(
    bridge: BridgeModel,
    tap_name: Seq<char>,
    link_exists: bool,
    user: Option<Seq<char>>,
) -> Seq<Seq<Seq<char>>> {
    let owner = match user {
        Some(u) => u,
        None => "statix-agent"@,
    };
    let make = if link_exists {
        Seq::<Seq<Seq<char>>>::empty()
    } else {
        seq![seq!["tuntap"@, "add"@, "dev"@, tap_name, "mode"@, "tap"@, "user"@, owner]]
    };
    make.push(seq!["link"@, "set"@, tap_name, "master"@, bridge.name]).push(
        seq!["link"@, "set"@, "dev"@, tap_name, "up"@],
    )
}

/// The commands of `ip` that make a tap device where there is none, tie it to
/// the bridge and bring it up.
pub fn tap_plan(
    bridge: &BridgeState,
    tap_name: &str,
    link_exists: bool,
    user: Option<&str>,
) -> (r: Vec<Vec<String>>)
    ensures
        argument_lists(r@) == tap_commands(
            bridge@,
            tap_name@,
            link_exists,
            crate::text::str_of(user),
        ),
{
    let mut r = no_commands();
    if !link_exists {
        let owner = match user {
            Some(u) => u,
            None => "statix-agent",
        };
        let mut a = no_texts();
        push_text(&mut a, "tuntap");
        push_text(&mut a, "add");
        push_text(&mut a, "dev");
        push_text(&mut a, tap_name);
        push_text(&mut a, "mode");
        push_text(&mut a, "tap");
        push_text(&mut a, "user");
        push_text(&mut a, owner);
        proof {
            assert(texts(a@) =~= tap_commands(
                bridge@,
                tap_name@,
                link_exists,
                crate::text::str_of(user),
            )[0]);
        }
        push_command(&mut r, a);
    }
    let mut master = no_texts();
    push_text(&mut master, "link");
    push_text(&mut master, "set");
    push_text(&mut master, tap_name);
    push_text(&mut master, "master");
    push_text(&mut master, bridge.name.as_str());
    proof {
        let all = tap_commands(bridge@, tap_name@, link_exists, crate::text::str_of(user));
        assert(texts(master@) =~= all[all.len() - 2]);
    }
    push_command(&mut r, master);
    let mut up = no_texts();
    push_text(&mut up, "link");
    push_text(&mut up, "set");
    push_text(&mut up, "dev");
    push_text(&mut up, tap_name);
    push_text(&mut up, "up");
    proof {
        let all = tap_commands(bridge@, tap_name@, link_exists, crate::text::str_of(user));
        assert(texts(up@) =~= all[all.len() - 1]);
    }
    push_command(&mut r, up);
    r
}

/// What is told of a command that failed names the command and what it said, and its
/// status where that is all there is.
#[verifier::rlimit(40)]
pub proof fn failed_commands_are_told(
    program: Seq<char>,
    args: Seq<Seq<char>>,
    status: Seq<char>,
    detail: Seq<char>,
)
    ensures
        ({
            let text = failure_text(program, args, status, detail);
            &&& occurs(text, program + " "@ + joined(args, " "@))
            &&& occurs(text, detail)
            &&& detail.len() == 0 ==> occurs(text, status)
            &&& program != "ip"@ ==> occurs(text, status)
        }),
{
    let none = Seq::<char>::empty();
    let command = program + " "@ + joined(args, " "@);
    let text = failure_text(program, args, status, detail);
    reveal_strlit("Operation not permitted");
    reveal_strlit("does not exist");
    reveal_strlit("Cannot find device");
    if program == "ip"@ && occurs(detail, "Operation not permitted"@) {
        let front = "network setup requires CAP_NET_ADMIN or root privileges; `"@;
        crate::text::middle_occurs(front, command, "` failed: "@ + detail);
        assert(text =~= front + command + ("` failed: "@ + detail));
        crate::text::middle_occurs(front + command + "` failed: "@, detail, none);
        assert(text =~= front + command + "` failed: "@ + detail + none);
    } else if program == "ip"@ && (occurs(detail, "does not exist"@) || occurs(
        detail,
        "Cannot find device"@,
    )) {
        let middle = "` failed because the network device was not found: "@;
        crate::text::middle_occurs("`"@, command, middle + detail);
        assert(text =~= "`"@ + command + (middle + detail));
        crate::text::middle_occurs("`"@ + command + middle, detail, none);
        assert(text =~= "`"@ + command + middle + detail + none);
    } else if detail.len() == 0 {
        let middle = "` failed with "@;
        crate::text::middle_occurs("`"@, command, middle + status);
        assert(text =~= "`"@ + command + (middle + status));
        crate::text::middle_occurs("`"@ + command + middle, status, none);
        assert(text =~= "`"@ + command + middle + status + none);
        crate::text::middle_occurs(text, detail, none);
        assert(text =~= text + detail + none);
    } else {
        let middle = "` failed with "@;
        crate::text::middle_occurs("`"@, command, middle + status + ": "@ + detail);
        assert(text =~= "`"@ + command + (middle + status + ": "@ + detail));
        crate::text::middle_occurs("`"@ + command + middle, status, ": "@ + detail);
        assert(text =~= "`"@ + command + middle + status + (": "@ + detail));
        crate::text::middle_occurs("`"@ + command + middle + status + ": "@, detail, none);
        assert(text =~= "`"@ + command + middle + status + ": "@ + detail + none);
    }
}

/// A missing permission is told as such, for the program that needs it.
pub proof fn missing_permission_is_told(
    front: Seq<char>,
    back: Seq<char>,
    args: Seq<Seq<char>>,
    status: Seq<char>,
)
    ensures
        occurs(
            failure_text("ip"@, args, status, front + "Operation not permitted"@ + back),
            "CAP_NET_ADMIN or root"@,
        ),
{
    let detail = front + "Operation not permitted"@ + back;
    crate::text::middle_occurs(front, "Operation not permitted"@, back);
    let text = failure_text("ip"@, args, status, detail);
    let command = "ip"@ + " "@ + joined(args, " "@);
    let whole = "network setup requires CAP_NET_ADMIN or root privileges; `"@;
    reveal_strlit("network setup requires CAP_NET_ADMIN or root privileges; `");
    reveal_strlit("CAP_NET_ADMIN or root");
    assert(whole.subrange(23, 44) =~= "CAP_NET_ADMIN or root"@);
    assert(crate::text::occurs_at(whole, "CAP_NET_ADMIN or root"@, 23));
    let none = Seq::<char>::empty();
    let rest = command + "` failed: "@ + detail;
    crate::text::part_occurs(none, whole, rest, "CAP_NET_ADMIN or root"@);
    assert(text =~= none + whole + rest);
}

/// A bridge is made under its name where it is missing and not where it is there; it is
/// given its address unless it has that, and brought up in any case, last of all.
pub proof fn bridge_is_made_and_brought_up(
    bridge: BridgeModel,
    addresses: Seq<char>,
    front: Seq<char>,
    back: Seq<char>,
)
    ensures
        bridge_link_commands(bridge, true).len() == 0,
        ({
            let make = bridge_link_commands(bridge, false);
            &&& make.len() == 1
            &&& make[0][0] == "link"@ && make[0][1] == "add"@
            &&& make[0].contains(bridge.name)
            &&& make[0].last() == "bridge"@
        }),
        ({
            let all = bridge_address_commands(bridge, addresses);
            &&& 1 <= all.len() <= 2
            &&& all.last() == seq!["link"@, "set"@, "dev"@].push(bridge.name).push("up"@)
            &&& all.len() == 2 ==> all[0][0] == "addr"@ && all[0].contains(
                ipv4_text(bridge.gateway) + "/"@ + decimal(bridge.prefix_len as nat),
            ) && all[0].last() == bridge.name
            &&& all.len() == 1 <==> occurs(
                addresses,
                ipv4_text(bridge.gateway) + "/"@ + decimal(bridge.prefix_len as nat),
            )
        }),
        bridge_address_commands(
            bridge,
            front + (ipv4_text(bridge.gateway) + "/"@ + decimal(bridge.prefix_len as nat)) + back,
        ).len() == 1,
        bridge_address_commands(bridge, Seq::empty()).len() == 2,
{
    let make = bridge_link_commands(bridge, false)[0];
    assert(make[3] == bridge.name);
    let all = bridge_address_commands(bridge, addresses);
    assert(seq!["link"@, "set"@, "dev"@].push(bridge.name).push("up"@) =~= seq![
        "link"@,
        "set"@,
        "dev"@,
        bridge.name,
        "up"@,
    ]);
    if all.len() == 2 {
        assert(all[0][2] == bridge_cidr(bridge));
    }
    crate::text::middle_occurs(front, bridge_cidr(bridge), back);
    let none = Seq::<char>::empty();
    reveal_strlit("/");
    assert(bridge_cidr(bridge).len() > 0);
    assert(!occurs(none, bridge_cidr(bridge)));
}

/// The device of a project is made where it is missing, for the user that the agent runs
/// as; in any case it is put on the bridge and then brought up.
pub proof fn device_is_put_on_the_bridge(
    bridge: BridgeModel,
    tap_name: Seq<char>,
    link_exists: bool,
    user: Option<Seq<char>>,
)
    ensures
        ({
            let all = tap_commands(bridge, tap_name, link_exists, user);
            let n = all.len() as int;
            &&& n == if link_exists {
                2int
            } else {
                3
            }
            &&& all[n - 2][0] == "link"@ && all[n - 2].contains(tap_name) && all[n - 2][3]
                == "master"@ && all[n - 2].last() == bridge.name
            &&& all[n - 1].contains(tap_name) && all[n - 1].last() == "up"@
            &&& !link_exists ==> all[0][0] == "tuntap"@ && all[0][1] == "add"@ && all[0].contains(
                tap_name,
            )
            &&& !link_exists && user is Some ==> all[0].last() == user->0
            &&& !link_exists && user is None ==> all[0].last() == "statix-agent"@
        }),
{
    let all = tap_commands(bridge, tap_name, link_exists, user);
    let n = all.len() as int;
    assert(all[n - 2][2] == tap_name);
    assert(all[n - 1][3] == tap_name);
    if !link_exists {
        assert(all[0][3] == tap_name);
    }
}

} // verus!
