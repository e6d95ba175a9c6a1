use flock::parser::{parse_command, parse_lowered, ParsedCommand};

#[test]
fn parses_status_and_help_in_any_case() {
    assert_eq!(parse_command("status"), ParsedCommand::Status);
    assert_eq!(parse_command("  STATUS  "), ParsedCommand::Status);
    assert_eq!(parse_command("Help"), ParsedCommand::Help);
    assert_eq!(parse_command("help me"), ParsedCommand::Help);
}

#[test]
fn parses_door_with_and_without_id() {
    assert_eq!(parse_command("door D01"), ParsedCommand::ToggleDoor("d01".to_string()));
    assert_eq!(parse_command("door"), ParsedCommand::ToggleDoor(String::new()));
}

#[test]
fn parses_power_arguments() {
    assert_eq!(
        parse_command("power   Reactor   OVER"),
        ParsedCommand::SetPower("reactor".to_string(), "over".to_string())
    );
    assert_eq!(
        parse_command("power bridge"),
        ParsedCommand::SetPower("bridge".to_string(), String::new())
    );
}

#[test]
fn parses_repair() {
    assert_eq!(parse_command("repair NE-42"), ParsedCommand::Repair("ne-42".to_string()));
}

#[test]
fn unknown_and_empty_commands() {
    assert_eq!(parse_command("launch torpedo"), ParsedCommand::Unknown("launch".to_string()));
    assert_eq!(parse_command(""), ParsedCommand::Empty);
    assert_eq!(parse_command(" \t "), ParsedCommand::Empty);
}

#[test]
fn lowered_text_is_read_as_is() {
    assert_eq!(parse_lowered("door X"), ParsedCommand::ToggleDoor("X".to_string()));
    assert_eq!(parse_lowered("STATUS"), ParsedCommand::Unknown("STATUS".to_string()));
}
