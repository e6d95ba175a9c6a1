use flock::commands::{
    power_from_lowered, handle_door, handle_help, handle_power, handle_repair, handle_status, process_commands, ShipRoom,
};
use flock::input::CommandQueue;
use flock::ship::{Door, HullIntegrity, PowerState};

fn room(name: &str, hull: u32) -> ShipRoom {
    ShipRoom { name: name.to_string(), power: PowerState::Active, hull: HullIntegrity(hull), repairing: false, repair_ordered: false }
}

fn door(id: &str, open: bool) -> Door {
    Door { id_name: id.to_string(), is_open: open, room_a: 1, room_b: 2 }
}

#[test]
fn help_lists_the_commands() {
    assert_eq!(
        handle_help(),
        "AVAILABLE COMMANDS:\n* status\n* help\n* door <id>\n* power <room> <off|on|over>\n* repair <room>"
    );
}

#[test]
fn door_toggles_first_match_ignoring_case() {
    let mut doors = vec![door("D01", true), door("D02", false), door("d02", true)];
    assert_eq!(handle_door(&mut doors, "d02"), "DOOR D02 IS NOW OPENED.");
    assert!(doors[1].is_open);
    assert!(doors[2].is_open);
    assert_eq!(handle_door(&mut doors, "D01"), "DOOR D01 IS NOW CLOSED.");
    assert!(!doors[0].is_open);
}

#[test]
fn door_toggled_twice_is_unchanged() {
    let mut doors = vec![door("D01", true)];
    handle_door(&mut doors, "d01");
    handle_door(&mut doors, "d01");
    assert!(doors[0].is_open);
}

#[test]
fn missing_door_is_reported() {
    let mut doors = vec![door("D01", true)];
    assert_eq!(handle_door(&mut doors, "d09"), "ERROR: DOOR 'd09' NOT FOUND.");
    assert!(doors[0].is_open);
}

#[test]
fn power_routing() {
    let mut rooms = vec![room("NE-12", 100), room("SW-40", 100)];
    assert_eq!(handle_power(&mut rooms, "sw", "OFF"), "POWER ROUTING: SW-40 is now Offline");
    assert_eq!(rooms[1].power, PowerState::Offline);
    assert_eq!(handle_power(&mut rooms, "ne", "overcharge"), "POWER ROUTING: NE-12 is now Overcharged");
    assert_eq!(rooms[0].power, PowerState::Overcharged);
    assert_eq!(handle_power(&mut rooms, "ne", "active"), "POWER ROUTING: NE-12 is now Active");
}

#[test]
fn power_errors() {
    let mut rooms = vec![room("NE-12", 100)];
    assert_eq!(
        handle_power(&mut rooms, "ne", "max"),
        "ERROR: INVALID POWER STATE 'max'. USE: on, off, over"
    );
    assert_eq!(handle_power(&mut rooms, "sw", "on"), "ERROR: ROOM MATCHING 'sw' NOT FOUND.");
    assert_eq!(rooms[0].power, PowerState::Active);
}

#[test]
fn repair_rules() {
    let mut rooms = vec![room("Bridge", 100), room("Reactor Core", 70), room("Bay", 40)];
    rooms[2].repairing = true;
    assert_eq!(handle_repair(&mut rooms, "bridge"), "INFO: Hull is already at optimal integrity in Bridge.");
    assert_eq!(
        handle_repair(&mut rooms, "core"),
        "DEPLOYING DRONES: Commencing hull repairs in Reactor Core. ETA: 10s."
    );
    assert!(rooms[1].repair_ordered);
    assert!(!rooms[1].repairing);
    assert_eq!(
        handle_repair(&mut rooms, "core"),
        "DEPLOYING DRONES: Commencing hull repairs in Reactor Core. ETA: 10s."
    );
    assert_eq!(handle_repair(&mut rooms, "bay"), "ERROR: Repair drones are already deployed in Bay.");
    assert!(!rooms[2].repair_ordered);
    assert_eq!(handle_repair(&mut rooms, "deck"), "ERROR: ROOM MATCHING 'deck' NOT FOUND.");
}

#[test]
fn status_report_lines() {
    let mut r = room("Bridge", 85);
    r.repairing = true;
    let rooms = vec![r, room("Hall", 100)];
    let lines = handle_status(
        &rooms,
        &vec!["5v0".to_string(), "6v0".to_string()],
        &vec!["20.0".to_string(), "-3.5".to_string()],
    );
    assert_eq!(
        lines,
        vec![
            "--- SHIP STATUS ---".to_string(),
            "5v0 | Room: Bridge | Temp: 20.0°C | Power: Active | Hull: 85% [REPAIRING]".to_string(),
            "6v0 | Room: Hall | Temp: -3.5°C | Power: Active | Hull: 100% ".to_string(),
        ]
    );
}

#[test]
fn process_commands_echoes_and_dispatches_in_order() {
    let mut q = CommandQueue { pending: vec!["power hall off".to_string(), "door D01".to_string(), "status".to_string(), "jump".to_string()] };
    let mut rooms = vec![room("Hall", 40)];
    let mut doors = vec![door("D01", false)];
    let out = process_commands(&mut q, &mut rooms, &mut doors, &vec!["7v1".to_string()], &vec!["1.0".to_string()]);
    assert!(q.pending.is_empty());
    assert_eq!(
        out,
        vec![
            "> power hall off".to_string(),
            "POWER ROUTING: Hall is now Offline".to_string(),
            "> door D01".to_string(),
            "DOOR D01 IS NOW OPENED.".to_string(),
            "> status".to_string(),
            "--- SHIP STATUS ---".to_string(),
            "7v1 | Room: Hall | Temp: 1.0°C | Power: Offline | Hull: 40% ".to_string(),
            "> jump".to_string(),
            "COMMAND NOT FOUND: jump".to_string(),
        ]
    );
    assert!(doors[0].is_open);
}

#[test]
fn repair_order_shows_no_tag_within_the_same_frame() {
    let mut q = CommandQueue { pending: vec!["repair hall".to_string(), "repair hall".to_string(), "status".to_string()] };
    let mut rooms = vec![room("Hall", 40)];
    let mut doors = vec![];
    let out = process_commands(&mut q, &mut rooms, &mut doors, &vec!["e".to_string()], &vec!["t".to_string()]);
    assert_eq!(out[1], "DEPLOYING DRONES: Commencing hull repairs in Hall. ETA: 10s.");
    assert_eq!(out[3], "DEPLOYING DRONES: Commencing hull repairs in Hall. ETA: 10s.");
    assert_eq!(out[6], "e | Room: Hall | Temp: t°C | Power: Active | Hull: 40% ");
}

#[test]
fn repair_command_through_the_queue() {
    let mut q = CommandQueue { pending: vec!["repair hall".to_string(), "help".to_string()] };
    let mut rooms = vec![room("Hall", 40)];
    let mut doors = vec![];
    let out = process_commands(&mut q, &mut rooms, &mut doors, &vec!["e".to_string()], &vec!["t".to_string()]);
    assert_eq!(out[1], "DEPLOYING DRONES: Commencing hull repairs in Hall. ETA: 10s.");
    assert_eq!(out[2], "> help");
    assert!(rooms[0].repair_ordered);
    assert!(!rooms[0].repairing);
}

#[test]
fn power_words() {
    assert_eq!(power_from_lowered("off"), Some(PowerState::Offline));
    assert_eq!(power_from_lowered("offline"), Some(PowerState::Offline));
    assert_eq!(power_from_lowered("on"), Some(PowerState::Active));
    assert_eq!(power_from_lowered("active"), Some(PowerState::Active));
    assert_eq!(power_from_lowered("over"), Some(PowerState::Overcharged));
    assert_eq!(power_from_lowered("overcharge"), Some(PowerState::Overcharged));
    assert_eq!(power_from_lowered("OFF"), None);
    assert_eq!(power_from_lowered(""), None);
}
