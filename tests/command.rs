use bpp_command_api::command::CommandInfo;

#[test]
fn command_name_and_arguments() {
    let info = CommandInfo::parse("timeout \"long reason here\" 10".to_string());
    assert!(info.has_command_info);
    assert_eq!(info.command_name, "timeout");
    assert_eq!(info.command_args, vec!["long reason here", "10"]);
}

#[test]
fn command_without_arguments() {
    let info = CommandInfo::parse("  ping ".to_string());
    assert!(info.has_command_info);
    assert_eq!(info.command_name, "ping");
    assert!(info.command_args.is_empty());
}

#[test]
fn malformed_message_has_no_command() {
    let info = CommandInfo::parse("echo \"abc".to_string());
    assert!(!info.has_command_info);
    assert_eq!(info.command_name, "");
    assert!(info.command_args.is_empty());
}

#[test]
fn blank_message_has_no_command() {
    let info = CommandInfo::parse("   ".to_string());
    assert!(!info.has_command_info);
    assert_eq!(info.command_name, "");
    assert!(info.command_args.is_empty());
}
