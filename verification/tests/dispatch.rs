use acb::addr::{DeviceAddress, IpV4};
use acb::dispatch::{
    connect_attempt_result, greeting, handle_command, is_greeting, DispatchOutcome,
};
use acb::registry::DeviceRegistry;

fn addr(a: u8, b: u8, c: u8, d: u8, port: u16) -> DeviceAddress {
    DeviceAddress { ip: IpV4 { a, b, c, d }, port }
}

fn reply_of(out: DispatchOutcome) -> String {
    match out {
        DispatchOutcome::Reply(s) => s,
        _ => panic!("expected a reply"),
    }
}

#[test]
fn devices_on_empty_registry_is_header_only() {
    let reg = DeviceRegistry::new();
    let out = handle_command("host:devices", &reg);
    assert_eq!(reply_of(out), "Connected devices:\n");
}

#[test]
fn devices_lists_each_registered_address() {
    let mut reg = DeviceRegistry::new();
    reg.insert(addr(127, 0, 0, 1, 5555), 1);
    reg.insert(addr(10, 0, 0, 2, 80), 2);
    let out = handle_command("host:devices", &reg);
    assert_eq!(
        reply_of(out),
        "Connected devices:\n\t127.0.0.1:5555\n\t10.0.0.2:80\n"
    );
}

#[test]
fn connect_then_devices_lists_address_once() {
    let mut reg = DeviceRegistry::new();
    let out = handle_command("host:connect:127.0.0.1:5555", &reg);
    let target = match out {
        DispatchOutcome::Connect(a) => a,
        _ => panic!("expected a connect outcome"),
    };
    assert_eq!(target, addr(127, 0, 0, 1, 5555));
    let resp = connect_attempt_result(&mut reg, target, Some(9));
    assert_eq!(resp, "Connected to Socket");
    let listing = reply_of(handle_command("host:devices", &reg));
    assert_eq!(listing, "Connected devices:\n\t127.0.0.1:5555\n");
    assert_eq!(listing.matches("127.0.0.1:5555").count(), 1);
}

#[test]
fn reconnect_replaces_entry_without_duplicating() {
    let mut reg = DeviceRegistry::new();
    let a = addr(127, 0, 0, 1, 5555);
    connect_attempt_result(&mut reg, a, Some(1));
    connect_attempt_result(&mut reg, a, Some(2));
    assert_eq!(reg.len(), 1);
    assert_eq!(reg.lookup(&a), Some(2));
    let listing = reply_of(handle_command("host:devices", &reg));
    assert_eq!(listing, "Connected devices:\n\t127.0.0.1:5555\n");
}

#[test]
fn failed_connect_leaves_registry_unchanged() {
    let mut reg = DeviceRegistry::new();
    let a = addr(127, 0, 0, 1, 5555);
    let resp = connect_attempt_result(&mut reg, a, None);
    assert_eq!(resp, "");
    assert_eq!(reg.len(), 0);
}

#[test]
fn connect_with_invalid_host_is_rejected() {
    let reg = DeviceRegistry::new();
    let out = handle_command("host:connect:not-an-ip:80", &reg);
    assert_eq!(reply_of(out), "Invalid Host");
    assert_eq!(reg.len(), 0);
}

#[test]
fn connect_with_invalid_port_is_rejected() {
    let reg = DeviceRegistry::new();
    let out = handle_command("host:connect:127.0.0.1:99999", &reg);
    assert_eq!(reply_of(out), "Invalid Port");
    let out2 = handle_command("host:connect:127.0.0.1", &reg);
    assert_eq!(reply_of(out2), "Invalid Port");
    assert_eq!(reg.len(), 0);
}

#[test]
fn connect_with_no_arguments_is_rejected() {
    let reg = DeviceRegistry::new();
    let out = handle_command("host:connect", &reg);
    assert_eq!(reply_of(out), "Invalid Host");
}

#[test]
fn lifecycle_commands_need_a_registered_device() {
    let reg = DeviceRegistry::new();
    for name in [
        "start-instance",
        "close-instance",
        "restart-instance",
        "stop-instance",
        "resume-instance",
    ] {
        let out = handle_command(&format!("host:{}:1", name), &reg);
        assert_eq!(reply_of(out), "No device connected");
    }
}

#[test]
fn lifecycle_commands_refuse_ambiguous_default() {
    let mut reg = DeviceRegistry::new();
    reg.insert(addr(127, 0, 0, 1, 1111), 1);
    reg.insert(addr(127, 0, 0, 1, 2222), 2);
    let out = handle_command("host:start-instance:1", &reg);
    assert_eq!(
        reply_of(out),
        "Too many devices connected: Use -s to specify a device"
    );
}

#[test]
fn lifecycle_sends_frame_to_sole_device() {
    let mut reg = DeviceRegistry::new();
    reg.insert(addr(127, 0, 0, 1, 5555), 42);
    let out = handle_command("host:start-instance:7", &reg);
    match out {
        DispatchOutcome::SendFrame(conn, frame) => {
            assert_eq!(conn, 42);
            assert_eq!(
                frame,
                vec![0x00, 0x07, 0x00, 0x00, 0x00, 0x00, 0x00, 0x00, 0x01]
            );
        },
        _ => panic!("expected a frame send"),
    }
}

#[test]
fn lifecycle_without_instance_argument_sends_zero_id() {
    let mut reg = DeviceRegistry::new();
    reg.insert(addr(127, 0, 0, 1, 5555), 42);
    let out = handle_command("host:stop-instance", &reg);
    match out {
        DispatchOutcome::SendFrame(conn, frame) => {
            assert_eq!(conn, 42);
            assert_eq!(
                frame,
                vec![0x00, 0x00, 0x00, 0x03, 0x00, 0x00, 0x00, 0x00, 0x01]
            );
        },
        _ => panic!("expected a frame send"),
    }
}

#[test]
fn lifecycle_with_bad_instance_argument_is_rejected() {
    let mut reg = DeviceRegistry::new();
    reg.insert(addr(127, 0, 0, 1, 5555), 42);
    let out = handle_command("host:start-instance:many", &reg);
    assert_eq!(reply_of(out), "Invalid Instance Id");
}

#[test]
fn explicit_target_routes_to_that_device() {
    let mut reg = DeviceRegistry::new();
    reg.insert(addr(127, 0, 0, 1, 1111), 1);
    reg.insert(addr(10, 0, 0, 2, 2222), 2);
    let out = handle_command("10.0.0.2:2222:close-instance:3", &reg);
    match out {
        DispatchOutcome::SendFrame(conn, frame) => {
            assert_eq!(conn, 2);
            assert_eq!(
                frame,
                vec![0x00, 0x03, 0x00, 0x01, 0x00, 0x00, 0x00, 0x00, 0x01]
            );
        },
        _ => panic!("expected a frame send"),
    }
}

#[test]
fn explicit_target_errors() {
    let mut reg = DeviceRegistry::new();
    reg.insert(addr(127, 0, 0, 1, 1111), 1);
    let unknown = handle_command("10.0.0.9:2222:start-instance:1", &reg);
    assert_eq!(reply_of(unknown), "No device with this serial");
    let bad_ip = handle_command("10.0.9:2222:start-instance:1", &reg);
    assert_eq!(reply_of(bad_ip), "Invalid IP");
    let bad_port = handle_command("10.0.0.9:port:start-instance:1", &reg);
    assert_eq!(reply_of(bad_port), "Invalid Port");
}

#[test]
fn unrecognized_command_is_ignored() {
    let mut reg = DeviceRegistry::new();
    reg.insert(addr(127, 0, 0, 1, 1111), 1);
    assert!(matches!(
        handle_command("host:frobnicate", &reg),
        DispatchOutcome::Silent
    ));
    assert!(matches!(
        handle_command("host:frobnicate:1:2", &reg),
        DispatchOutcome::Silent
    ));
    assert_eq!(reg.len(), 1);
}

#[test]
fn bare_or_short_input_is_ignored() {
    let reg = DeviceRegistry::new();
    assert!(matches!(
        handle_command("", &reg),
        DispatchOutcome::Silent
    ));
    assert!(matches!(
        handle_command("host", &reg),
        DispatchOutcome::Silent
    ));
    assert!(matches!(
        handle_command("sometoken", &reg),
        DispatchOutcome::Silent
    ));
}

#[test]
fn kill_server_closes_every_registered_connection() {
    let mut reg = DeviceRegistry::new();
    reg.insert(addr(127, 0, 0, 1, 1111), 7);
    reg.insert(addr(127, 0, 0, 1, 2222), 8);
    let out = handle_command("host:kill-server", &reg);
    match out {
        DispatchOutcome::Shutdown(conns) => {
            assert_eq!(conns, vec![7, 8]);
        },
        _ => panic!("expected a shutdown"),
    }
}

#[test]
fn greeting_is_okay() {
    assert_eq!(greeting(), "Okay");
    assert!(is_greeting("Okay"));
    assert!(!is_greeting("Nope"));
    assert!(!is_greeting(""));
}
