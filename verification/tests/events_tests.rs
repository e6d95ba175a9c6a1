use flock::commands::ShipRoom;
use flock::events::{apply_vulnerability, complete_repair, resolve_critical_events, HazardTarget};
use flock::ship::{CriticalTemperatureEvent, Door, HullIntegrity, PowerState, Vulnerabilities, VulnerabilityType};

fn door(id: &str, a: u64, b: u64, open: bool) -> Door {
    Door { id_name: id.to_string(), is_open: open, room_a: a, room_b: b }
}

#[test]
fn power_shortage_turns_power_off_once() {
    let mut p = PowerState::Overcharged;
    let mut h = HullIntegrity(100);
    let mut doors = vec![];
    let m = apply_vulnerability(VulnerabilityType::PowerShortage, &mut p, &mut h, &mut doors, 3, "NE-12");
    assert_eq!(m, Some("⚠ DISASTER: Power shorted in NE-12 due to extreme heat!".to_string()));
    assert_eq!(p, PowerState::Offline);
    let m = apply_vulnerability(VulnerabilityType::PowerShortage, &mut p, &mut h, &mut doors, 3, "NE-12");
    assert_eq!(m, None);
}

#[test]
fn door_malfunction_jams_first_door_into_entity() {
    let mut p = PowerState::Active;
    let mut h = HullIntegrity(100);
    let mut doors = vec![door("D01", 1, 2, true), door("D02", 2, 3, true), door("D03", 3, 4, true)];
    let m = apply_vulnerability(VulnerabilityType::DoorMalfunction, &mut p, &mut h, &mut doors, 3, "Hall");
    assert_eq!(m, Some("⚠ DISASTER: Thermal expansion jammed door D02 in Hall!".to_string()));
    assert!(!doors[1].is_open);
    assert!(doors[2].is_open);
    let m = apply_vulnerability(VulnerabilityType::DoorMalfunction, &mut p, &mut h, &mut doors, 9, "Hall");
    assert_eq!(m, Some("⚠ WARNING: Extreme heat detected in Hall!".to_string()));
}

#[test]
fn hull_breach_costs_fifteen_down_to_zero() {
    let mut p = PowerState::Active;
    let mut h = HullIntegrity(100);
    let mut doors = vec![];
    let m = apply_vulnerability(VulnerabilityType::HullBreach, &mut p, &mut h, &mut doors, 1, "Core");
    assert_eq!(m, Some("⚠ CRITICAL: Hull integrity failing in Core (85%)!".to_string()));
    h = HullIntegrity(10);
    let m = apply_vulnerability(VulnerabilityType::HullBreach, &mut p, &mut h, &mut doors, 1, "Core");
    assert_eq!(h.0, 0);
    assert_eq!(m, Some("⚠ CRITICAL: Hull integrity failing in Core (0%)!".to_string()));
}

#[test]
fn resolve_events_strikes_only_targets_with_vulnerabilities() {
    let mut targets = vec![
        HazardTarget { entity: 1, power: PowerState::Active, hull: HullIntegrity(100), vulnerabilities: Vulnerabilities(vec![VulnerabilityType::HullBreach]) },
        HazardTarget { entity: 2, power: PowerState::Active, hull: HullIntegrity(100), vulnerabilities: Vulnerabilities(vec![]) },
    ];
    let mut doors = vec![];
    let events = vec![
        CriticalTemperatureEvent { entity: 1, room_name: "Core".to_string() },
        CriticalTemperatureEvent { entity: 2, room_name: "Bay".to_string() },
        CriticalTemperatureEvent { entity: 7, room_name: "Void".to_string() },
        CriticalTemperatureEvent { entity: 1, room_name: "Core".to_string() },
    ];
    let out = resolve_critical_events(&mut targets, &mut doors, &events);
    assert_eq!(
        out,
        vec![
            "⚠ CRITICAL: Hull integrity failing in Core (85%)!".to_string(),
            "⚠ CRITICAL: Hull integrity failing in Core (70%)!".to_string(),
        ]
    );
    assert_eq!(targets[0].hull.0, 70);
    assert_eq!(targets[1].hull.0, 100);
}

#[test]
fn resolve_events_picks_among_vulnerabilities() {
    for _ in 0..50 {
        let mut targets = vec![HazardTarget {
            entity: 4,
            power: PowerState::Active,
            hull: HullIntegrity(100),
            vulnerabilities: Vulnerabilities(vec![VulnerabilityType::PowerShortage, VulnerabilityType::DoorMalfunction]),
        }];
        let mut doors = vec![door("D01", 4, 5, true)];
        let out = resolve_critical_events(&mut targets, &mut doors, &vec![CriticalTemperatureEvent { entity: 4, room_name: "Lab".to_string() }]);
        assert_eq!(out.len(), 1);
        assert_eq!(targets[0].hull.0, 100);
        let shorted = targets[0].power == PowerState::Offline && doors[0].is_open;
        let jammed = targets[0].power == PowerState::Active && !doors[0].is_open;
        assert!(shorted ^ jammed);
    }
}

#[test]
fn finished_repair_restores_hull() {
    let mut r = ShipRoom { name: "Bay".to_string(), power: PowerState::Offline, hull: HullIntegrity(55), repairing: true, repair_ordered: false };
    assert_eq!(complete_repair(&mut r), "DRONES: Hull integrity fully restored in Bay.");
    assert_eq!(r.hull.0, 100);
    assert!(!r.repairing);
    assert_eq!(r.power, PowerState::Offline);
}
