use acb::addr::{DeviceAddress, IpV4};
use acb::cli::{acb_cli, acb_commandline, send_cli_command, CliAction, CliCommand, CliStep};
use acb::codec::DaemonCommands;
use acb::manager::{instance_request_path, manager_reply};
use acb::registry::{DeviceRegistry, Resolution};

fn addr(a: u8, b: u8, c: u8, d: u8, port: u16) -> DeviceAddress {
    DeviceAddress { ip: IpV4 { a, b, c, d }, port }
}

#[test]
fn lookup_finds_only_registered_addresses() {
    let mut reg = DeviceRegistry::new();
    let a = addr(1, 2, 3, 4, 80);
    let b = addr(1, 2, 3, 4, 81);
    assert_eq!(reg.lookup(&a), None);
    reg.insert(a, 11);
    assert_eq!(reg.lookup(&a), Some(11));
    assert_eq!(reg.lookup(&b), None);
}

#[test]
fn list_preserves_insertion_order() {
    let mut reg = DeviceRegistry::new();
    let a = addr(1, 1, 1, 1, 1);
    let b = addr(2, 2, 2, 2, 2);
    let c = addr(3, 3, 3, 3, 3);
    reg.insert(a, 1);
    reg.insert(b, 2);
    reg.insert(c, 3);
    assert_eq!(reg.list(), vec![a, b, c]);
    reg.insert(b, 9);
    assert_eq!(reg.list(), vec![a, b, c]);
    assert_eq!(reg.connections(), vec![1, 9, 3]);
}

#[test]
fn resolve_default_depends_on_registry_size() {
    let mut reg = DeviceRegistry::new();
    assert_eq!(reg.resolve_default(), Resolution::NoDevice);
    reg.insert(addr(1, 1, 1, 1, 1), 5);
    assert_eq!(reg.resolve_default(), Resolution::Resolved(5));
    reg.insert(addr(2, 2, 2, 2, 2), 6);
    assert_eq!(reg.resolve_default(), Resolution::Ambiguous);
}

#[test]
fn request_text_joins_fields_with_colons() {
    assert_eq!(
        send_cli_command(None, "devices".to_string(), vec![]),
        "host:devices"
    );
    assert_eq!(
        send_cli_command(
            None,
            "connect".to_string(),
            vec!["127.0.0.1".to_string(), "5555".to_string()]
        ),
        "host:connect:127.0.0.1:5555"
    );
    assert_eq!(
        send_cli_command(
            Some("10.0.0.2:80".to_string()),
            "start-instance".to_string(),
            vec!["7".to_string()]
        ),
        "10.0.0.2:80:start-instance:7"
    );
}

#[test]
fn commandline_selects_the_action() {
    let args = |v: &[&str]| v.iter().map(|s| s.to_string()).collect::<Vec<String>>();
    assert!(matches!(
        acb_commandline(args(&["acb"])),
        CliAction::ShowHelp
    ));
    assert!(matches!(
        acb_commandline(args(&["acb", "help"])),
        CliAction::ShowHelp
    ));
    assert!(matches!(
        acb_commandline(args(&["acb", "--verbose"])),
        CliAction::Ignore
    ));
    assert!(matches!(
        acb_commandline(args(&["acb", "-v"])),
        CliAction::Ignore
    ));
    assert!(matches!(
        acb_commandline(args(&["acb", "devices"])),
        CliAction::ListDevices
    ));
    assert!(matches!(
        acb_commandline(args(&["acb", "start-server"])),
        CliAction::LaunchDaemon
    ));
    match acb_commandline(args(&["acb", "connect", "1.2.3.4:80"])) {
        CliAction::Connect(Some(s)) => assert_eq!(s, "1.2.3.4:80"),
        _ => panic!("expected a connect action with its argument"),
    }
    assert!(matches!(
        acb_commandline(args(&["acb", "connect"])),
        CliAction::Connect(None)
    ));
    assert!(matches!(
        acb_commandline(args(&["acb", "dance"])),
        CliAction::Ignore
    ));
}

#[test]
fn cli_builds_the_wire_requests() {
    match acb_cli(None, CliCommand::Devices) {
        CliStep::Request { text, wait } => {
            assert_eq!(text, "host:devices");
            assert!(wait);
        },
        _ => panic!("expected a request"),
    }
    match acb_cli(None, CliCommand::KillServer) {
        CliStep::Request { text, wait } => {
            assert_eq!(text, "host:kill-server");
            assert!(!wait);
        },
        _ => panic!("expected a request"),
    }
    match acb_cli(
        None,
        CliCommand::Connect { daemon_server: "127.0.0.1:5555".to_string() },
    ) {
        CliStep::Request { text, wait } => {
            assert_eq!(text, "host:connect:127.0.0.1:5555");
            assert!(wait);
        },
        _ => panic!("expected a request"),
    }
    match acb_cli(
        None,
        CliCommand::Connect { daemon_server: "nocolon".to_string() },
    ) {
        CliStep::Invalid { text } => assert_eq!(text, "Invalid Serial"),
        _ => panic!("expected an invalid-serial message"),
    }
    match acb_cli(
        Some("10.0.0.2:80".to_string()),
        CliCommand::RestartInstance { instance_id: 3 },
    ) {
        CliStep::Request { text, wait } => {
            assert_eq!(text, "10.0.0.2:80:restart-instance:3");
            assert!(wait);
        },
        _ => panic!("expected a request"),
    }
    assert!(matches!(
        acb_cli(None, CliCommand::StartServer),
        CliStep::LaunchDaemon
    ));
    assert!(matches!(
        acb_cli(None, CliCommand::ForkServer),
        CliStep::RunServer
    ));
}

#[test]
fn manager_paths_name_instance_and_action() {
    assert_eq!(
        instance_request_path(7, DaemonCommands::StartInstance),
        "/instance/7/start"
    );
    assert_eq!(
        instance_request_path(65535, DaemonCommands::CloseInstance),
        "/instance/65535/close"
    );
    assert_eq!(
        instance_request_path(0, DaemonCommands::RestartInstance),
        "/instance/0/restart"
    );
    assert_eq!(
        instance_request_path(1, DaemonCommands::StopInstance),
        "/instance/1/stop"
    );
    assert_eq!(
        instance_request_path(2, DaemonCommands::ResumeInstance),
        "/instance/2/resume"
    );
}

#[test]
fn manager_reports_success_only_on_completion() {
    assert_eq!(manager_reply(true), Some("Success".to_string()));
    assert_eq!(manager_reply(false), None);
}
