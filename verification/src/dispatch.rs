//! The client command dispatcher. A client sends one colon-delimited text
//! command per write: `<target>:<command>[:<arg>...]`, where the target is
//! the literal `host` (the implicit default device) or an explicit
//! `<ip>:<port>` pair consuming two fields. Dispatch decides everything
//! that follows from the command text and the registry alone; the session
//! loop carries out the returned outcome (reply, outbound connect, frame
//! write, or shutdown). Malformed input never panics: every parse step has
//! an explicit failure branch.
use vstd::prelude::*;
use vstd::string::*;
use vstd::utf8::encode_utf8;

use crate::addr::{addr_str, ip_of_str, is_ip_str, parse_ip, format_addr, DeviceAddress};
use crate::codec::{command_ordinal, frame_bytes, DaemonCommand, DaemonCommands};
use crate::registry::{
    reg_addrs, reg_conn_of, reg_conns, reg_contains, reg_insert, DeviceRegistry, RegEntry,
    Resolution,
};
use crate::text::{dec_val, is_u16_str, lemma_split_len, parse_u16, split_fields, split_on, str_eq};

verus! {

/// What the dispatcher decided, at the specification level.
#[verifier::ext_equal]
pub enum DispatchModel {
    /// Send this text back to the client.
    Reply(Seq<char>),
    /// Send nothing back.
    Silent,
    /// Attempt an outbound connection to this address, then report the
    /// result through `connect_attempt_result`.
    Connect(DeviceAddress),
    /// Write this frame to the connection with this handle.
    SendFrame(u64, Seq<u8>),
    /// Close all listed device connections, close the requesting client's
    /// connection, and terminate the daemon.
    Shutdown(Seq<u64>),
}

/// What the dispatcher decided. The session loop performs it.
pub enum DispatchOutcome {
    /// Send this text back to the client.
    Reply(String),
    /// Send nothing back.
    Silent,
    /// Attempt an outbound connection to this address, then report the
    /// result through `connect_attempt_result`.
    Connect(DeviceAddress),
    /// Write this frame to the connection with this handle.
    SendFrame(u64, Vec<u8>),
    /// Close all listed device connections, close the requesting client's
    /// connection, and terminate the daemon.
    Shutdown(Vec<u64>),
}

impl View for DispatchOutcome {
    type V = DispatchModel;

    open spec fn view(&self) -> DispatchModel {
        match self {
            DispatchOutcome::Reply(s) => DispatchModel::Reply(s@),
            DispatchOutcome::Silent => DispatchModel::Silent,
            DispatchOutcome::Connect(a) => DispatchModel::Connect(*a),
            DispatchOutcome::SendFrame(c, f) => DispatchModel::SendFrame(*c, f@),
            DispatchOutcome::Shutdown(v) => DispatchModel::Shutdown(v@),
        }
    }
}

/// The lifecycle command a command name denotes, if any.
pub open spec fn lifecycle_kind(cmd: Seq<char>) -> Option<DaemonCommands> {
    if cmd == "start-instance"@ {
        Some(DaemonCommands::StartInstance)
    } else if cmd == "close-instance"@ {
        Some(DaemonCommands::CloseInstance)
    } else if cmd == "restart-instance"@ {
        Some(DaemonCommands::RestartInstance)
    } else if cmd == "stop-instance"@ {
        Some(DaemonCommands::StopInstance)
    } else if cmd == "resume-instance"@ {
        Some(DaemonCommands::ResumeInstance)
    } else {
        None
    }
}

/// One listing line per device: a tab, the `ip:port` form, a newline.
pub open spec fn device_lines(addrs: Seq<DeviceAddress>) -> Seq<char>
    decreases addrs.len(),
{
    if addrs.len() == 0 {
        Seq::empty()
    } else {
        seq!['\t'] + addr_str(addrs[0]) + seq!['\n'] + device_lines(addrs.drop_first())
    }
}

/// The full `devices` reply: the header line, then one line per device.
pub open spec fn devices_reply(addrs: Seq<DeviceAddress>) -> Seq<char> {
    "Connected devices:\n"@ + device_lines(addrs)
}

/// Appending an address appends its listing line.
pub proof fn lemma_device_lines_push(s: Seq<DeviceAddress>, a: DeviceAddress)
    ensures
        device_lines(s.push(a)) == device_lines(s) + seq!['\t'] + addr_str(a) + seq!['\n'],
    decreases s.len(),
{
    if s.len() == 0 {
        assert(s.push(a)[0] == a);
        assert(s.push(a).drop_first() =~= Seq::<DeviceAddress>::empty());
        assert(device_lines(Seq::<DeviceAddress>::empty()) =~= Seq::<char>::empty());
        assert(device_lines(s.push(a)) =~= device_lines(s) + seq!['\t'] + addr_str(a)
            + seq!['\n']);
    } else {
        assert(s.push(a)[0] == s[0]);
        assert(s.push(a).drop_first() =~= s.drop_first().push(a));
        lemma_device_lines_push(s.drop_first(), a);
        assert(device_lines(s.push(a)) =~= device_lines(s) + seq!['\t'] + addr_str(a)
            + seq!['\n']);
    }
}

/// Outcome of the `connect` command for the given argument fields.
pub open spec fn spec_connect(args: Seq<Seq<char>>) -> DispatchModel {
    if args.len() < 1 || !is_ip_str(args[0]) {
        DispatchModel::Reply("Invalid Host"@)
    } else if args.len() < 2 || !is_u16_str(args[1]) {
        DispatchModel::Reply("Invalid Port"@)
    } else {
        DispatchModel::Connect(
            DeviceAddress { ip: ip_of_str(args[0]), port: dec_val(args[1]) as u16 },
        )
    }
}

/// Resolution of a lifecycle command's target to a connection handle:
/// the implicit default device for the `host` target, else the explicitly
/// addressed device. Failure yields the reply text.
pub open spec fn spec_resolve(
    target: Option<(Seq<char>, Seq<char>)>,
    reg: Seq<RegEntry>,
) -> Result<u64, Seq<char>> {
    match target {
        None => {
            if reg.len() == 0 {
                Err("No device connected"@)
            } else if reg.len() > 1 {
                Err("Too many devices connected: Use -s to specify a device"@)
            } else {
                Ok(reg[0].conn)
            }
        },
        Some(t) => {
            if !is_ip_str(t.0) {
                Err("Invalid IP"@)
            } else if !is_u16_str(t.1) {
                Err("Invalid Port"@)
            } else {
                let a = DeviceAddress { ip: ip_of_str(t.0), port: dec_val(t.1) as u16 };
                if !reg_contains(reg, a) {
                    Err("No device with this serial"@)
                } else {
                    Ok(reg_conn_of(reg, a))
                }
            }
        },
    }
}

/// Outcome of a lifecycle command: resolve the target, then send the
/// framed command with the instance id parsed from the first argument
/// (absent when no argument was given); the message is always empty.
pub open spec fn spec_lifecycle(
    kind: DaemonCommands,
    target: Option<(Seq<char>, Seq<char>)>,
    args: Seq<Seq<char>>,
    reg: Seq<RegEntry>,
) -> DispatchModel {
    match spec_resolve(target, reg) {
        Err(msg) => DispatchModel::Reply(msg),
        Ok(conn) => {
            if args.len() == 0 {
                DispatchModel::SendFrame(
                    conn,
                    frame_bytes(command_ordinal(kind), None, Seq::empty()),
                )
            } else if !is_u16_str(args[0]) {
                DispatchModel::Reply("Invalid Instance Id"@)
            } else {
                DispatchModel::SendFrame(
                    conn,
                    frame_bytes(command_ordinal(kind), Some(dec_val(args[0]) as u16), Seq::empty()),
                )
            }
        },
    }
}

/// Outcome for a parsed target and the fields after it: the first is the
/// command name, the rest are its arguments. An unrecognized or missing
/// command name is ignored.
pub open spec fn spec_command(
    target: Option<(Seq<char>, Seq<char>)>,
    rest: Seq<Seq<char>>,
    reg: Seq<RegEntry>,
) -> DispatchModel {
    if rest.len() == 0 {
        DispatchModel::Silent
    } else {
        let cmd = rest[0];
        let args = rest.skip(1);
        if cmd == "kill-server"@ {
            DispatchModel::Shutdown(reg_conns(reg))
        } else if cmd == "connect"@ {
            spec_connect(args)
        } else if cmd == "devices"@ {
            DispatchModel::Reply(devices_reply(reg_addrs(reg)))
        } else {
            match lifecycle_kind(cmd) {
                Some(kind) => spec_lifecycle(kind, target, args, reg),
                None => DispatchModel::Silent,
            }
        }
    }
}

/// The dispatcher's full decision for one raw command string: split on
/// colons, read the target (`host`, or an explicit ip and port consuming
/// two fields), then the command. A lone field that is not `host` lacks
/// both a port and a command and is ignored.
pub open spec fn spec_dispatch(input: Seq<char>, reg: Seq<RegEntry>) -> DispatchModel {
    let fs = split_on(input, ':');
    if fs[0] == "host"@ {
        spec_command(None, fs.skip(1), reg)
    } else if fs.len() < 2 {
        DispatchModel::Silent
    } else {
        spec_command(Some((fs[0], fs[1])), fs.skip(2), reg)
    }
}

/// Builds the `devices` listing for the current registry.
fn devices_text(reg: &DeviceRegistry) -> (r: String)
    ensures
        r@ == devices_reply(reg_addrs(reg@)),
{
    proof {
        reveal_strlit("\t");
        reveal_strlit("\n");
    }
    let addrs = reg.list();
    let n = addrs.len();
    let mut s = "Connected devices:\n".to_owned();
    let mut i: usize = 0;
    while i < n
        invariant
            0 <= i <= n,
            n == addrs@.len(),
            addrs@ == reg_addrs(reg@),
            s@ == "Connected devices:\n"@ + device_lines(addrs@.take(i as int)),
        decreases n - i,
    {
        s.append("\t");
        s.append(format_addr(&addrs[i]).as_str());
        s.append("\n");
        proof {
            reveal_strlit("\t");
            reveal_strlit("\n");
            assert(addrs@.take(i + 1) =~= addrs@.take(i as int).push(addrs@[i as int]));
            lemma_device_lines_push(addrs@.take(i as int), addrs@[i as int]);
            assert(s@ =~= "Connected devices:\n"@ + device_lines(addrs@.take(i + 1)));
        }
        i = i + 1;
    }
    proof {
        assert(addrs@.take(n as int) =~= addrs@);
    }
    s
}

/// Outcome of the `connect` command whose arguments are the fields of
/// `fields` from `idx` on.
fn connect_outcome(fields: &Vec<String>, idx: usize) -> (out: DispatchOutcome)
    requires
        idx <= fields@.len(),
    ensures
        out@ == spec_connect(fields.deep_view().skip(idx as int)),
{
    let ghost args = fields.deep_view().skip(idx as int);
    if fields.len() <= idx {
        return DispatchOutcome::Reply("Invalid Host".to_owned());
    }
    proof {
        assert(args[0] == fields.deep_view()[idx as int]);
    }
    match parse_ip(fields[idx].as_str()) {
        None => DispatchOutcome::Reply("Invalid Host".to_owned()),
        Some(ip) => {
            if fields.len() <= idx + 1 {
                return DispatchOutcome::Reply("Invalid Port".to_owned());
            }
            proof {
                assert(args[1] == fields.deep_view()[idx + 1]);
            }
            match parse_u16(fields[idx + 1].as_str()) {
                None => DispatchOutcome::Reply("Invalid Port".to_owned()),
                Some(port) => DispatchOutcome::Connect(DeviceAddress { ip, port }),
            }
        },
    }
}

/// Decides the outcome of one raw client command against the current
/// registry. Reading decisions only: the registry is not changed here;
/// a `Connect` outcome is completed by `connect_attempt_result` once the
/// session loop knows whether the outbound connection succeeded.
pub fn handle_command(input: &str, reg: &DeviceRegistry) -> (out: DispatchOutcome)
    requires
        reg.wf(),
    ensures
        out@ == spec_dispatch(input@, reg@),
{
    let fields = split_fields(input, ':');
    let ghost fs = split_on(input@, ':');
    proof {
        lemma_split_len(input@, ':');
        assert(fields.deep_view() == fs);
        assert(fields@.len() == fs.len());
        assert(fields.deep_view()[0] == fields@[0]@);
    }
    let host_target = str_eq(fields[0].as_str(), "host");
    let start: usize = if host_target {
        1
    } else {
        2
    };
    if !host_target && fields.len() < 2 {
        return DispatchOutcome::Silent;
    }
    let ghost rest = if host_target {
        fs.skip(1)
    } else {
        fs.skip(2)
    };
    proof {
        if !host_target {
            assert(fields.deep_view()[1] == fields@[1]@);
        }
        assert(rest.len() == fs.len() - start);
    }
    if fields.len() <= start {
        return DispatchOutcome::Silent;
    }
    proof {
        assert(rest[0] == fs[start as int]);
        assert(fs[start as int] == fields@[start as int]@);
        assert(rest.skip(1) =~= fs.skip(start + 1));
    }
    let ghost args = rest.skip(1);
    let cmd = fields[start].as_str();
    if str_eq(cmd, "kill-server") {
        return DispatchOutcome::Shutdown(reg.connections());
    }
    if str_eq(cmd, "connect") {
        let out = connect_outcome(&fields, start + 1);
        proof {
            assert(fields.deep_view().skip(start + 1) =~= args);
        }
        return out;
    }
    if str_eq(cmd, "devices") {
        return DispatchOutcome::Reply(devices_text(reg));
    }
    let kind: Option<DaemonCommands> = if str_eq(cmd, "start-instance") {
        Some(DaemonCommands::StartInstance)
    } else if str_eq(cmd, "close-instance") {
        Some(DaemonCommands::CloseInstance)
    } else if str_eq(cmd, "restart-instance") {
        Some(DaemonCommands::RestartInstance)
    } else if str_eq(cmd, "stop-instance") {
        Some(DaemonCommands::StopInstance)
    } else if str_eq(cmd, "resume-instance") {
        Some(DaemonCommands::ResumeInstance)
    } else {
        None
    };
    let k = match kind {
        None => {
            return DispatchOutcome::Silent;
        },
        Some(k) => k,
    };
    let conn: u64 = if host_target {
        match reg.resolve_default() {
            Resolution::NoDevice => {
                return DispatchOutcome::Reply("No device connected".to_owned());
            },
            Resolution::Ambiguous => {
                return DispatchOutcome::Reply(
                    "Too many devices connected: Use -s to specify a device".to_owned(),
                );
            },
            Resolution::Resolved(c) => c,
        }
    } else {
        let ip = match parse_ip(fields[0].as_str()) {
            None => {
                return DispatchOutcome::Reply("Invalid IP".to_owned());
            },
            Some(ip) => ip,
        };
        let port = match parse_u16(fields[1].as_str()) {
            None => {
                return DispatchOutcome::Reply("Invalid Port".to_owned());
            },
            Some(p) => p,
        };
        let a = DeviceAddress { ip, port };
        match reg.lookup(&a) {
            None => {
                return DispatchOutcome::Reply("No device with this serial".to_owned());
            },
            Some(c) => c,
        }
    };
    let instance_id: Option<u16> = if fields.len() <= start + 1 {
        None
    } else {
        proof {
            assert(args[0] == fs[start + 1]);
            assert(fs[start + 1] == fields@[start + 1]@);
        }
        match parse_u16(fields[start + 1].as_str()) {
            None => {
                return DispatchOutcome::Reply("Invalid Instance Id".to_owned());
            },
            Some(v) => Some(v),
        }
    };
    let command = DaemonCommand::from(k, instance_id, String::new());
    proof {
        assert(encode_utf8(command.message@) =~= Seq::<u8>::empty());
    }
    let frame = command.encode();
    DispatchOutcome::SendFrame(conn, frame)
}

/// Completes a `Connect` outcome once the session loop has attempted the
/// outbound connection: a successful connection (its handle in `conn`) is
/// registered and acknowledged; a failed one changes nothing and yields
/// the empty reply, so the caller may silently retry.
pub fn connect_attempt_result(
    reg: &mut DeviceRegistry,
    addr: DeviceAddress,
    conn: Option<u64>,
) -> (resp: String)
    requires
        old(reg).wf(),
    ensures
        final(reg).wf(),
        conn matches Some(c) ==> final(reg)@ == reg_insert(old(reg)@, addr, c) && resp@
            == "Connected to Socket"@,
        conn is None ==> final(reg)@ == old(reg)@ && resp@ == Seq::<char>::empty(),
{
    match conn {
        Some(c) => {
            reg.insert(addr, c);
            "Connected to Socket".to_owned()
        },
        None => String::new(),
    }
}

/// The greeting the daemon writes to every client on connect, before any
/// command is read.
pub fn greeting() -> (r: String)
    ensures
        r@ == "Okay"@,
{
    "Okay".to_owned()
}

/// Whether a daemon's first bytes are the expected greeting; the client
/// proceeds only when they are.
pub fn is_greeting(resp: &str) -> (r: bool)
    ensures
        r == (resp@ == "Okay"@),
{
    str_eq(resp, "Okay")
}

} // verus!
