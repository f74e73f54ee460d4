//! The CLI client side: deciding what a command-line invocation asks for
//! and building the request text that goes over the control connection.
//! The wire form is the dispatcher's grammar: `serial:command:arg:...`,
//! with the literal `host` in place of an absent serial.
use vstd::prelude::*;
use vstd::string::*;

use crate::text::{dec_str, find_sep, lemma_find_sep_at, str_eq, u16_to_string};

verus! {

/// Joined option fields, each preceded by a colon.
pub open spec fn opts_text(opts: Seq<Seq<char>>) -> Seq<char>
    decreases opts.len(),
{
    if opts.len() == 0 {
        Seq::empty()
    } else {
        seq![':'] + opts[0] + opts_text(opts.skip(1))
    }
}

/// Appending an option appends its colon-prefixed field.
pub proof fn lemma_opts_text_push(opts: Seq<Seq<char>>, o: Seq<char>)
    ensures
        opts_text(opts.push(o)) == opts_text(opts) + seq![':'] + o,
    decreases opts.len(),
{
    if opts.len() == 0 {
        assert(opts.push(o)[0] == o);
        assert(opts.push(o).skip(1) =~= Seq::<Seq<char>>::empty());
        assert(opts_text(Seq::<Seq<char>>::empty()) =~= Seq::<char>::empty());
        assert(opts_text(opts.push(o)) =~= opts_text(opts) + seq![':'] + o);
    } else {
        assert(opts.push(o)[0] == opts[0]);
        assert(opts.push(o).skip(1) =~= opts.skip(1).push(o));
        lemma_opts_text_push(opts.skip(1), o);
        assert(opts_text(opts.push(o)) =~= opts_text(opts) + seq![':'] + o);
    }
}

/// The serial a request names: the explicit one, or the literal `host`.
pub open spec fn serial_or_host(serial: Option<Seq<char>>) -> Seq<char> {
    match serial {
        None => "host"@,
        Some(s) => s,
    }
}

/// The full request text: serial, command, then each option, all
/// colon-delimited.
pub open spec fn request_text(
    serial: Option<Seq<char>>,
    command: Seq<char>,
    options: Seq<Seq<char>>,
) -> Seq<char> {
    serial_or_host(serial) + seq![':'] + command + opts_text(options)
}

/// View of an optional serial argument.
pub open spec fn serial_view(serial: Option<String>) -> Option<Seq<char>> {
    match serial {
        None => None,
        Some(s) => Some(s@),
    }
}

/// Builds the request text a CLI invocation sends to the daemon.
pub fn send_cli_command(serial: Option<String>, command: String, options: Vec<String>) -> (req:
    String)
    ensures
        req@ == request_text(serial_view(serial), command@, options.deep_view()),
{
    proof {
        reveal_strlit(":");
    }
    let ghost sv = serial_view(serial);
    let mut req: String = match serial {
        None => "host".to_owned(),
        Some(s) => s,
    };
    req.append(":");
    req.append(command.as_str());
    proof {
        assert(opts_text(Seq::<Seq<char>>::empty()) =~= Seq::<char>::empty());
        assert(options.deep_view().take(0) =~= Seq::<Seq<char>>::empty());
        assert(req@ =~= serial_or_host(sv) + seq![':'] + command@ + opts_text(
            options.deep_view().take(0),
        ));
    }
    let n = options.len();
    let mut i: usize = 0;
    while i < n
        invariant
            0 <= i <= n,
            n == options@.len(),
            req@ == serial_or_host(sv) + seq![':'] + command@ + opts_text(
                options.deep_view().take(i as int),
            ),
        decreases n - i,
    {
        req.append(":");
        req.append(options[i].as_str());
        proof {
            reveal_strlit(":");
            assert(options.deep_view().take(i + 1) =~= options.deep_view().take(i as int).push(
                options.deep_view()[i as int],
            ));
            lemma_opts_text_push(options.deep_view().take(i as int), options.deep_view()[i as int]);
            assert(options.deep_view()[i as int] == options@[i as int]@);
            assert(req@ =~= serial_or_host(sv) + seq![':'] + command@ + opts_text(
                options.deep_view().take(i + 1),
            ));
        }
        i = i + 1;
    }
    proof {
        assert(options.deep_view().take(n as int) =~= options.deep_view());
    }
    req
}

/// What a raw command-line invocation asks the client to do.
pub enum CliAction {
    /// Print the usage text.
    ShowHelp,
    /// A dash-prefixed flag with nothing behind it, or an unknown word:
    /// nothing to do.
    Ignore,
    /// Query the daemon for the device listing.
    ListDevices,
    /// Launch the daemon as a detached background process.
    LaunchDaemon,
    /// Ask the daemon to connect to the device the argument names.
    Connect(Option<String>),
}

/// First character is a dash.
pub open spec fn dashed(a: Seq<char>) -> bool {
    a.len() >= 1 && a[0] == '-'
}

/// Decides what a raw argument list asks for: the word after the program
/// name selects the action, and `connect` takes the following argument.
pub fn acb_commandline(args: Vec<String>) -> (out: CliAction)
    ensures
        args.deep_view().len() <= 1 ==> out is ShowHelp,
        args.deep_view().len() >= 2 ==> {
            let a = args.deep_view()[1];
            &&& dashed(a) ==> out is Ignore
            &&& !dashed(a) && a == "help"@ ==> out is ShowHelp
            &&& !dashed(a) && a == "devices"@ ==> out is ListDevices
            &&& !dashed(a) && a == "start-server"@ ==> out is LaunchDaemon
            &&& !dashed(a) && a == "connect"@ ==> out is Connect
            &&& !dashed(a) && a == "connect"@ && args.deep_view().len() == 2 ==> (out
                matches CliAction::Connect(None))
            &&& !dashed(a) && a == "connect"@ && args.deep_view().len() >= 3 ==> (out
                matches CliAction::Connect(Some(s)) && s@ == args.deep_view()[2])
            &&& !dashed(a) && a != "help"@ && a != "devices"@ && a != "start-server"@ && a
                != "connect"@ ==> out is Ignore
        },
{
    if args.len() <= 1 {
        return CliAction::ShowHelp;
    }
    let arg = args[1].as_str();
    proof {
        reveal_strlit("help");
        reveal_strlit("devices");
        reveal_strlit("start-server");
        reveal_strlit("connect");
        assert(args.deep_view()[1] == args@[1]@);
        if args@.len() >= 3 {
            assert(args.deep_view()[2] == args@[2]@);
        }
    }
    if arg.unicode_len() >= 1 && arg.get_char(0) == '-' {
        return CliAction::Ignore;
    }
    if str_eq(arg, "help") {
        CliAction::ShowHelp
    } else if str_eq(arg, "devices") {
        CliAction::ListDevices
    } else if str_eq(arg, "start-server") {
        CliAction::LaunchDaemon
    } else if str_eq(arg, "connect") {
        if args.len() >= 3 {
            CliAction::Connect(Some(args[2].clone()))
        } else {
            CliAction::Connect(None)
        }
    } else {
        CliAction::Ignore
    }
}

/// A parsed CLI subcommand, as the argument parser hands it over.
pub enum CliCommand {
    StartServer,
    KillServer,
    ForkServer,
    Connect { daemon_server: String },
    Devices,
    StartInstance { instance_id: u16 },
    CloseInstance { instance_id: u16 },
    RestartInstance { instance_id: u16 },
    StopInstance { instance_id: u16 },
    ResumeInstance { instance_id: u16 },
}

/// What the client does for one parsed subcommand.
pub enum CliStep {
    /// Fork the daemon as a detached background process.
    LaunchDaemon,
    /// Run the daemon's listener loop in this process.
    RunServer,
    /// Send this request over the control connection; read one reply back
    /// when `wait` is set.
    Request { text: String, wait: bool },
    /// Show this message to the user; nothing is sent.
    Invalid { text: String },
}

/// Splits at the first colon, when there is one.
fn split_once_colon(s: &str) -> (r: Option<(String, String)>)
    ensures
        r is Some <==> find_sep(s@, ':') >= 0,
        r matches Some(p) ==> p.0@ == s@.take(find_sep(s@, ':')) && p.1@ == s@.skip(
            find_sep(s@, ':') + 1,
        ),
{
    let n = s.unicode_len();
    let mut q: usize = 0;
    while q < n && s.get_char(q) != ':'
        invariant
            0 <= q <= n,
            n == s@.len(),
            forall|j: int| 0 <= j < q ==> s@[j] != ':',
        decreases n - q,
    {
        q = q + 1;
    }
    proof {
        assert(s@.take(q as int) =~= s@.take(q as int));
        assert forall|j: int| 0 <= j < q implies #[trigger] s@.take(q as int)[j] != ':' by {
            assert(s@.take(q as int)[j] == s@[j]);
        }
        lemma_find_sep_at(s@, ':', q as int);
    }
    if q == n {
        None
    } else {
        Some((s.substring_char(0, q).to_owned(), s.substring_char(q + 1, n).to_owned()))
    }
}

/// Translates one parsed subcommand into the client's step: the wire
/// request for daemon-directed commands, the two server launch modes, or
/// a user-facing message for a malformed `connect` argument.
pub fn acb_cli(serial: Option<String>, command: CliCommand) -> (r: CliStep)
    ensures
        command is StartServer ==> r is LaunchDaemon,
        command is ForkServer ==> r is RunServer,
        command is KillServer ==> (r matches CliStep::Request { text, wait } && text@
            == request_text(None, "kill-server"@, Seq::empty()) && !wait),
        command matches CliCommand::Connect { daemon_server } ==> (if find_sep(
            daemon_server@,
            ':',
        ) < 0 {
            r matches CliStep::Invalid { text } && text@ == "Invalid Serial"@
        } else {
            r matches CliStep::Request { text, wait } && text@ == request_text(
                None,
                "connect"@,
                seq![
                    daemon_server@.take(find_sep(daemon_server@, ':')),
                    daemon_server@.skip(find_sep(daemon_server@, ':') + 1),
                ],
            ) && wait
        }),
        command is Devices ==> (r matches CliStep::Request { text, wait } && text@ == request_text(
            None,
            "devices"@,
            Seq::empty(),
        ) && wait),
        command matches CliCommand::StartInstance { instance_id } ==> (r
            matches CliStep::Request { text, wait } && text@ == request_text(
            serial_view(serial),
            "start-instance"@,
            seq![dec_str(instance_id as nat)],
        ) && wait),
        command matches CliCommand::CloseInstance { instance_id } ==> (r
            matches CliStep::Request { text, wait } && text@ == request_text(
            serial_view(serial),
            "close-instance"@,
            seq![dec_str(instance_id as nat)],
        ) && wait),
        command matches CliCommand::RestartInstance { instance_id } ==> (r
            matches CliStep::Request { text, wait } && text@ == request_text(
            serial_view(serial),
            "restart-instance"@,
            seq![dec_str(instance_id as nat)],
        ) && wait),
        command matches CliCommand::StopInstance { instance_id } ==> (r
            matches CliStep::Request { text, wait } && text@ == request_text(
            serial_view(serial),
            "stop-instance"@,
            seq![dec_str(instance_id as nat)],
        ) && wait),
        command matches CliCommand::ResumeInstance { instance_id } ==> (r
            matches CliStep::Request { text, wait } && text@ == request_text(
            serial_view(serial),
            "resume-instance"@,
            seq![dec_str(instance_id as nat)],
        ) && wait),
{
    match command {
        CliCommand::StartServer => CliStep::LaunchDaemon,
        CliCommand::ForkServer => CliStep::RunServer,
        CliCommand::KillServer => {
            let options: Vec<String> = Vec::new();
            proof {
                assert(options.deep_view() =~= Seq::<Seq<char>>::empty());
            }
            let text = send_cli_command(None, "kill-server".to_owned(), options);
            CliStep::Request { text, wait: false }
        },
        CliCommand::Connect { daemon_server } => {
            match split_once_colon(daemon_server.as_str()) {
                None => CliStep::Invalid { text: "Invalid Serial".to_owned() },
                Some((ip_part, port_part)) => {
                    let ghost expected = seq![ip_part@, port_part@];
                    let mut options: Vec<String> = Vec::new();
                    options.push(ip_part);
                    options.push(port_part);
                    proof {
                        assert(options.deep_view() =~= expected);
                    }
                    let text = send_cli_command(None, "connect".to_owned(), options);
                    CliStep::Request { text, wait: true }
                },
            }
        },
        CliCommand::Devices => {
            let options: Vec<String> = Vec::new();
            proof {
                assert(options.deep_view() =~= Seq::<Seq<char>>::empty());
            }
            let text = send_cli_command(None, "devices".to_owned(), options);
            CliStep::Request { text, wait: true }
        },
        CliCommand::StartInstance { instance_id } => {
            CliStep::Request {
                text: lifecycle_request(serial, "start-instance", instance_id),
                wait: true,
            }
        },
        CliCommand::CloseInstance { instance_id } => {
            CliStep::Request {
                text: lifecycle_request(serial, "close-instance", instance_id),
                wait: true,
            }
        },
        CliCommand::RestartInstance { instance_id } => {
            CliStep::Request {
                text: lifecycle_request(serial, "restart-instance", instance_id),
                wait: true,
            }
        },
        CliCommand::StopInstance { instance_id } => {
            CliStep::Request {
                text: lifecycle_request(serial, "stop-instance", instance_id),
                wait: true,
            }
        },
        CliCommand::ResumeInstance { instance_id } => {
            CliStep::Request {
                text: lifecycle_request(serial, "resume-instance", instance_id),
                wait: true,
            }
        },
    }
}

/// The request for one instance-lifecycle subcommand: the serial (or
/// `host`), the command name, and the decimal instance id.
fn lifecycle_request(serial: Option<String>, name: &str, instance_id: u16) -> (req: String)
    ensures
        req@ == request_text(serial_view(serial), name@, seq![dec_str(instance_id as nat)]),
{
    let id_text = u16_to_string(instance_id);
    let ghost expected = seq![id_text@];
    let mut options: Vec<String> = Vec::new();
    options.push(id_text);
    proof {
        assert(options.deep_view() =~= expected);
    }
    send_cli_command(serial, name.to_owned(), options)
}

} // verus!
