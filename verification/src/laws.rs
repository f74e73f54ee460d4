//! Laws relating the client request builder, the dispatcher, and the
//! registry: what a well-behaved daemon owes its clients across whole
//! command exchanges.
use vstd::prelude::*;

use crate::addr::{
    addr_str, ip_of_str, ip_str, is_ip_str, lemma_addr_str_fields, lemma_ip_str_valid,
    DeviceAddress,
};
use crate::cli::{opts_text, request_text};
use crate::dispatch::{devices_reply, lifecycle_kind, spec_command, spec_dispatch, DispatchModel};
use crate::registry::{
    count_addr, lemma_count_addr, lemma_reg_find, lemma_reg_insert, reg_addrs, reg_conns,
    reg_find, reg_insert, reg_wf, RegEntry,
};
use crate::text::{
    dec_str, dec_val, is_u16_str, lemma_dec_str_props, lemma_digits_not_sep, lemma_split_concat,
    lemma_split_none, no_char, split_on,
};

verus! {

/// A request body of separator-free fields splits back into those fields.
proof fn lemma_split_opts(first: Seq<char>, opts: Seq<Seq<char>>)
    requires
        no_char(first, ':'),
        forall|i: int| 0 <= i < opts.len() ==> no_char(#[trigger] opts[i], ':'),
    ensures
        split_on(first + opts_text(opts), ':') == seq![first] + opts,
    decreases opts.len(),
{
    if opts.len() == 0 {
        assert(first + opts_text(opts) =~= first);
        lemma_split_none(first, ':');
        assert(seq![first] + opts =~= seq![first]);
    } else {
        let rest = opts.skip(1);
        assert(first + opts_text(opts) =~= first + seq![':'] + (opts[0] + opts_text(rest)));
        lemma_split_concat(first, opts[0] + opts_text(rest), ':');
        assert(forall|i: int| 0 <= i < rest.len() ==> no_char(#[trigger] rest[i], ':'));
        lemma_split_opts(opts[0], rest);
        assert(seq![first] + (seq![opts[0]] + rest) =~= seq![first] + opts);
    }
}

/// A `host`-targeted request splits into `host`, the command name, and
/// the option fields, provided none of them contains a colon.
proof fn lemma_host_request(cmd: Seq<char>, opts: Seq<Seq<char>>)
    requires
        no_char(cmd, ':'),
        forall|i: int| 0 <= i < opts.len() ==> no_char(#[trigger] opts[i], ':'),
    ensures
        split_on(request_text(None, cmd, opts), ':') == seq!["host"@, cmd] + opts,
{
    reveal_strlit("host");
    assert(no_char("host"@, ':'));
    assert(request_text(None, cmd, opts) =~= "host"@ + seq![':'] + (cmd + opts_text(opts)));
    lemma_split_concat("host"@, cmd + opts_text(opts), ':');
    lemma_split_opts(cmd, opts);
    assert(seq!["host"@] + (seq![cmd] + opts) =~= seq!["host"@, cmd] + opts);
}

/// A valid `connect` request for a reachable device, once its connection
/// is registered, makes a following `devices` query list that exact
/// `ip:port` address exactly once.
pub proof fn lemma_connect_then_devices(reg: Seq<RegEntry>, a: DeviceAddress, c: u64)
    requires
        reg_wf(reg),
    ensures
        ({
            let connect_req = request_text(
                None,
                "connect"@,
                seq![ip_str(a.ip), dec_str(a.port as nat)],
            );
            let reg2 = reg_insert(reg, a, c);
            &&& spec_dispatch(connect_req, reg) == DispatchModel::Connect(a)
            &&& spec_dispatch(request_text(None, "devices"@, Seq::empty()), reg2)
                == DispatchModel::Reply(devices_reply(reg_addrs(reg2)))
            &&& count_addr(reg_addrs(reg2), a) == 1
        }),
{
    reveal_strlit("host");
    reveal_strlit("connect");
    reveal_strlit("devices");
    reveal_strlit("kill-server");
    lemma_ip_str_valid(a.ip);
    lemma_dec_str_props(a.port as nat);
    lemma_digits_not_sep(dec_str(a.port as nat));
    let opts = seq![ip_str(a.ip), dec_str(a.port as nat)];
    assert(no_char("connect"@, ':'));
    assert(forall|i: int| 0 <= i < opts.len() ==> no_char(#[trigger] opts[i], ':'));
    lemma_host_request("connect"@, opts);
    let fs = split_on(request_text(None, "connect"@, opts), ':');
    assert(fs[0] == "host"@);
    assert(fs.skip(1) =~= seq!["connect"@] + opts);
    assert(fs.skip(1)[0] == "connect"@);
    assert(fs.skip(1).skip(1) =~= opts);
    assert(spec_dispatch(request_text(None, "connect"@, opts), reg) == DispatchModel::Connect(a));

    let reg2 = reg_insert(reg, a, c);
    lemma_reg_insert(reg, a, c);
    lemma_count_addr(reg2, a);

    lemma_host_request("devices"@, Seq::empty());
    let gs = split_on(request_text(None, "devices"@, Seq::empty()), ':');
    assert(gs =~= seq!["host"@, "devices"@]);
    assert(gs.skip(1) =~= seq!["devices"@]);
    assert(gs.skip(1)[0] == "devices"@);
}

/// Connecting twice to the same address replaces the registry entry: the
/// listing keeps its length, its order, and shows that address once.
pub proof fn lemma_reconnect_replaces(reg: Seq<RegEntry>, a: DeviceAddress, c1: u64, c2: u64)
    requires
        reg_wf(reg),
    ensures
        ({
            let reg1 = reg_insert(reg, a, c1);
            let reg2 = reg_insert(reg1, a, c2);
            &&& reg2.len() == reg1.len()
            &&& reg_addrs(reg2) == reg_addrs(reg1)
            &&& count_addr(reg_addrs(reg2), a) == 1
        }),
{
    let reg1 = reg_insert(reg, a, c1);
    let reg2 = reg_insert(reg1, a, c2);
    lemma_reg_insert(reg, a, c1);
    lemma_reg_insert(reg1, a, c2);
    lemma_count_addr(reg2, a);
    lemma_reg_find(reg1, a);
    let i = reg_find(reg1, a);
    assert(reg1[i].addr == a);
    assert(reg2 == reg1.update(i, RegEntry { addr: a, conn: c2 }));
    assert forall|j: int| 0 <= j < reg1.len() implies reg_addrs(reg2)[j] == reg_addrs(
        reg1,
    )[j] by {
        assert(reg_addrs(reg2)[j] == reg2[j].addr);
        assert(reg_addrs(reg1)[j] == reg1[j].addr);
    }
    assert(reg_addrs(reg2) =~= reg_addrs(reg1));
}

/// `devices` on an empty registry replies with exactly the header line.
pub proof fn lemma_devices_empty_registry()
    ensures
        spec_dispatch(request_text(None, "devices"@, Seq::empty()), Seq::empty())
            == DispatchModel::Reply("Connected devices:\n"@),
{
    reveal_strlit("host");
    reveal_strlit("devices");
    reveal_strlit("kill-server");
    reveal_strlit("connect");
    let req = request_text(None, "devices"@, Seq::<Seq<char>>::empty());
    let er = Seq::<RegEntry>::empty();
    lemma_host_request("devices"@, Seq::<Seq<char>>::empty());
    let gs = split_on(req, ':');
    assert(gs =~= seq!["host"@, "devices"@]);
    assert(gs[0] == "host"@);
    assert(gs.skip(1) =~= seq!["devices"@]);
    assert(gs.skip(1)[0] == "devices"@);
    let out = spec_dispatch(req, er);
    assert("devices"@ != "kill-server"@) by {
        assert("devices"@.len() != "kill-server"@.len());
    }
    assert("devices"@ != "connect"@) by {
        assert("devices"@[0] != "connect"@[0]);
    }
    assert(spec_command(None, gs.skip(1), er) =~= DispatchModel::Reply(
        devices_reply(reg_addrs(er)),
    ));
    assert(out =~= DispatchModel::Reply(devices_reply(reg_addrs(er))));
    assert(reg_addrs(er).len() == 0);
    assert(devices_reply(reg_addrs(er)) =~= "Connected devices:\n"@);
    assert(out =~= DispatchModel::Reply("Connected devices:\n"@));
}

/// Every instance-lifecycle command aimed at the implicit default device
/// is refused with `No device connected` on an empty registry and with
/// the disambiguation message when more than one device is registered.
pub proof fn lemma_default_resolution(cmd: Seq<char>, opts: Seq<Seq<char>>, reg: Seq<RegEntry>)
    requires
        lifecycle_kind(cmd) is Some,
        no_char(cmd, ':'),
        forall|i: int| 0 <= i < opts.len() ==> no_char(#[trigger] opts[i], ':'),
    ensures
        ({
            let out = spec_dispatch(request_text(None, cmd, opts), reg);
            &&& reg.len() == 0 ==> out == DispatchModel::Reply("No device connected"@)
            &&& reg.len() > 1 ==> out == DispatchModel::Reply(
                "Too many devices connected: Use -s to specify a device"@,
            )
        }),
{
    reveal_strlit("host");
    reveal_strlit("kill-server");
    reveal_strlit("connect");
    reveal_strlit("devices");
    reveal_strlit("start-instance");
    reveal_strlit("close-instance");
    reveal_strlit("restart-instance");
    reveal_strlit("stop-instance");
    reveal_strlit("resume-instance");
    lemma_host_request(cmd, opts);
    let fs = split_on(request_text(None, cmd, opts), ':');
    assert(fs[0] == "host"@);
    assert(fs.skip(1) =~= seq![cmd] + opts);
    assert(fs.skip(1)[0] == cmd);
    assert(fs.skip(1).skip(1) =~= opts);
    assert(cmd != "kill-server"@ && cmd != "connect"@ && cmd != "devices"@);
}

/// A `connect` with an unparsable IP is refused as `Invalid Host`; with a
/// valid IP but unparsable port, as `Invalid Port`. A reply outcome
/// carries no registry change: only a successful connection, applied by
/// `connect_attempt_result`, ever alters the registry.
pub proof fn lemma_connect_rejects_bad_input(h: Seq<char>, p: Seq<char>, reg: Seq<RegEntry>)
    requires
        no_char(h, ':'),
        no_char(p, ':'),
    ensures
        ({
            let out = spec_dispatch(request_text(None, "connect"@, seq![h, p]), reg);
            &&& !is_ip_str(h) ==> out == DispatchModel::Reply("Invalid Host"@)
            &&& is_ip_str(h) && !is_u16_str(p) ==> out == DispatchModel::Reply("Invalid Port"@)
        }),
{
    reveal_strlit("host");
    reveal_strlit("connect");
    reveal_strlit("kill-server");
    let opts = seq![h, p];
    assert(forall|i: int| 0 <= i < opts.len() ==> no_char(#[trigger] opts[i], ':'));
    lemma_host_request("connect"@, opts);
    let fs = split_on(request_text(None, "connect"@, opts), ':');
    assert(fs[0] == "host"@);
    assert(fs.skip(1) =~= seq!["connect"@] + opts);
    assert(fs.skip(1)[0] == "connect"@);
    assert(fs.skip(1).skip(1) =~= opts);
}

/// An unrecognized command name produces no response; a reply-free,
/// action-free outcome leaves the registry exactly as it was.
pub proof fn lemma_unknown_command_ignored(cmd: Seq<char>, opts: Seq<Seq<char>>, reg: Seq<
    RegEntry,
>)
    requires
        no_char(cmd, ':'),
        forall|i: int| 0 <= i < opts.len() ==> no_char(#[trigger] opts[i], ':'),
        cmd != "kill-server"@,
        cmd != "connect"@,
        cmd != "devices"@,
        lifecycle_kind(cmd) is None,
    ensures
        spec_dispatch(request_text(None, cmd, opts), reg) == DispatchModel::Silent,
{
    lemma_host_request(cmd, opts);
    reveal_strlit("host");
    let fs = split_on(request_text(None, cmd, opts), ':');
    assert(fs[0] == "host"@);
    assert(fs.skip(1) =~= seq![cmd] + opts);
    assert(fs.skip(1)[0] == cmd);
}

/// `kill-server` shuts down every registered device connection: the
/// outcome lists each registered handle, in registry order.
pub proof fn lemma_kill_server_closes_all(reg: Seq<RegEntry>)
    ensures
        spec_dispatch(request_text(None, "kill-server"@, Seq::empty()), reg)
            == DispatchModel::Shutdown(reg_conns(reg)),
        reg_conns(reg).len() == reg.len(),
        forall|i: int| 0 <= i < reg.len() ==> reg_conns(reg)[i] == (#[trigger] reg[i]).conn,
{
    reveal_strlit("host");
    reveal_strlit("kill-server");
    lemma_host_request("kill-server"@, Seq::empty());
    let fs = split_on(request_text(None, "kill-server"@, Seq::empty()), ':');
    assert(fs =~= seq!["host"@, "kill-server"@]);
    assert(fs.skip(1) =~= seq!["kill-server"@]);
    assert(fs.skip(1)[0] == "kill-server"@);
}

/// An address round-trips through its listing form: parsing the fields of
/// `ip:port` yields the address itself.
pub proof fn lemma_addr_round_trip(a: DeviceAddress)
    ensures
        split_on(addr_str(a), ':') == seq![ip_str(a.ip), dec_str(a.port as nat)],
        is_ip_str(ip_str(a.ip)),
        is_u16_str(dec_str(a.port as nat)),
        ({
            let parsed = DeviceAddress {
                ip: ip_of_str(ip_str(a.ip)),
                port: dec_val(dec_str(a.port as nat)) as u16,
            };
            parsed == a
        }),
{
    lemma_addr_str_fields(a);
}

} // verus!

