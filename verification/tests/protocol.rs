//! Tests of the command protocol: the opcode table, case-insensitive
//! parsing, and the shutter route's decision.

use schellen_bridge_rs::BridgeError;
use schellen_bridge_rs::Command;
use schellen_bridge_rs::index;
use schellen_bridge_rs::shutter_frame;

#[test]
fn opcode_table_is_exact() {
    assert_eq!(Command::Up.to_opcode(), "ss119010000");
    assert_eq!(Command::Down.to_opcode(), "ss119020000");
    assert_eq!(Command::Stop.to_opcode(), "ss119000000");
    assert_eq!(Command::Init.to_opcode(), "init");
}

#[test]
fn opcodes_have_no_whitespace() {
    for c in [Command::Up, Command::Down, Command::Stop, Command::Init] {
        let op = c.to_opcode();
        assert_eq!(op.trim(), op);
        assert!(!op.contains('\n'));
    }
}

#[test]
fn parse_accepts_every_case_variant() {
    assert_eq!(Command::from_str("up"), Ok(Command::Up));
    assert_eq!(Command::from_str("Up"), Ok(Command::Up));
    assert_eq!(Command::from_str("UP"), Ok(Command::Up));
    assert_eq!(Command::from_str("uP"), Ok(Command::Up));
    assert_eq!(Command::from_str("down"), Ok(Command::Down));
    assert_eq!(Command::from_str("DoWn"), Ok(Command::Down));
    assert_eq!(Command::from_str("stop"), Ok(Command::Stop));
    assert_eq!(Command::from_str("STOP"), Ok(Command::Stop));
    assert_eq!(Command::from_str("init"), Ok(Command::Init));
    assert_eq!(Command::from_str("Init"), Ok(Command::Init));
}

#[test]
fn parse_rejects_names_outside_the_closed_set() {
    for name in ["left", "", "u", "upp", "up ", " up", "ss119010000", "down\n", "ínit", "ĩnit"] {
        assert_eq!(Command::from_str(name), Err(BridgeError::CommandUnrecognized));
    }
}

#[test]
fn index_describes_the_api() {
    assert_eq!(index(), "This is an API for the Schellenberg Stick.");
}

#[test]
fn shutter_frame_yields_the_opcode_for_a_valid_name() {
    assert_eq!(shutter_frame("down"), Some(String::from("ss119020000")));
    assert_eq!(shutter_frame("UP"), Some(String::from("ss119010000")));
    assert_eq!(shutter_frame("stop"), Some(String::from("ss119000000")));
    assert_eq!(shutter_frame("Init"), Some(String::from("init")));
}

#[test]
fn shutter_frame_yields_nothing_for_an_unrecognized_name() {
    assert_eq!(shutter_frame("left"), None);
    assert_eq!(shutter_frame(""), None);
    assert_eq!(shutter_frame("ss119020000"), None);
}
