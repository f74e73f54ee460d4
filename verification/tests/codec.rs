use acb::codec::{DaemonCommand, DaemonCommands};

#[test]
fn encode_start_instance_frame() {
    let cmd = DaemonCommand::from(DaemonCommands::StartInstance, Some(7), "".to_string());
    let frame = cmd.encode();
    assert_eq!(frame, vec![0x00, 0x07, 0x00, 0x00, 0x00, 0x00, 0x00, 0x00, 0x01]);
    assert_eq!(frame.len(), 9);
}

#[test]
fn encode_absent_instance_id_as_zero() {
    let cmd = DaemonCommand::from(DaemonCommands::CloseInstance, None, "".to_string());
    let frame = cmd.encode();
    assert_eq!(frame, vec![0x00, 0x00, 0x00, 0x01, 0x00, 0x00, 0x00, 0x00, 0x01]);
}

#[test]
fn encode_carries_message_bytes_and_length() {
    let cmd = DaemonCommand::from(DaemonCommands::ResumeInstance, Some(258), "hi".to_string());
    let frame = cmd.encode();
    assert_eq!(
        frame,
        vec![0x01, 0x02, 0x00, 0x04, 0x00, 0x00, 0x02, 0x00, 0x01, b'h', b'i']
    );
}

#[test]
fn command_ordinals_follow_declaration_order() {
    assert_eq!(DaemonCommands::StartInstance.ordinal(), 0);
    assert_eq!(DaemonCommands::CloseInstance.ordinal(), 1);
    assert_eq!(DaemonCommands::RestartInstance.ordinal(), 2);
    assert_eq!(DaemonCommands::StopInstance.ordinal(), 3);
    assert_eq!(DaemonCommands::ResumeInstance.ordinal(), 4);
}

#[test]
fn encode_big_endian_instance_id() {
    let cmd = DaemonCommand::from(DaemonCommands::StopInstance, Some(0xABCD), "".to_string());
    let frame = cmd.encode();
    assert_eq!(frame[0], 0xAB);
    assert_eq!(frame[1], 0xCD);
    assert_eq!(frame[2], 0x00);
    assert_eq!(frame[3], 0x03);
}
