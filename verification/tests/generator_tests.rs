use flock::generator::{
    alarm_period_secs, distribute_machines, door_name, door_names, machine_parts, machine_roster, machine_vulnerabilities,
    place_machines, provides_life_support, room_machines_for, random_room_designation, random_room_machines,
    room_designation, room_pairs, uses_reactor_threshold,
};
use flock::ship::{MachineType, VulnerabilityType};

#[test]
fn room_and_door_names() {
    assert_eq!(room_designation(true, false, 42), "NW-42");
    assert_eq!(room_designation(false, true, 7), "SE-07");
    assert_eq!(door_name(1), "D01");
    assert_eq!(door_name(12), "D12");
    assert_eq!(door_name(100), "D100");
}

#[test]
fn random_designation_has_two_digits_from_ten_to_ninety_eight() {
    let mut rng = rand::rng();
    for _ in 0..200 {
        let d = random_room_designation(true, true, &mut rng);
        assert!(d.starts_with("NE-"));
        let n: u32 = d[3..].parse().unwrap();
        assert!((10..99).contains(&n));
        assert_eq!(d.len(), 5);
    }
}

#[test]
fn short_codes() {
    assert_eq!(MachineType::Reactor.short_code(), "RCT");
    assert_eq!(MachineType::LifeSupport.short_code(), "LFS");
    assert_eq!(MachineType::Server.short_code(), "SRV");
    assert_eq!(MachineType::Cooler.short_code(), "COL");
}

#[test]
fn placement_takes_rooms_from_the_end() {
    let ids: Vec<String> = ["A", "B", "C"].iter().map(|s| s.to_string()).collect();
    let placed = place_machines(&vec![0, 2, 1], &ids);
    assert_eq!(placed.len(), 3);
    assert_eq!(placed[0].room, 1);
    assert_eq!(placed[0].machine.id_name, "B-RCT");
    assert_eq!(placed[1].room, 2);
    assert_eq!(placed[1].machine.id_name, "C-LFS");
    assert_eq!(placed[2].machine.machine_type, MachineType::Server);
    assert_eq!(placed[2].machine.id_name, "A-SRV");
}

#[test]
fn distribution_gives_each_machine_its_own_room() {
    let mut rng = rand::rng();
    let ids: Vec<String> = (0..16).map(|i| format!("R{}", i)).collect();
    let placed = distribute_machines(&ids, &mut rng);
    assert_eq!(placed.len(), 7);
    let roster = machine_roster();
    for (k, p) in placed.iter().enumerate() {
        assert_eq!(p.machine.machine_type, roster[k]);
        assert_eq!(p.machine.id_name, format!("{}-{}", ids[p.room], roster[k].short_code()));
        assert_eq!(p.parts.vulnerabilities.0, machine_vulnerabilities(roster[k]).0);
        assert_eq!(p.parts.alarm_period_secs, alarm_period_secs(roster[k]));
        for q in &placed[k + 1..] {
            assert_ne!(p.room, q.room);
        }
    }
    let few: Vec<String> = vec!["X".to_string(), "Y".to_string()];
    let placed = distribute_machines(&few, &mut rng);
    assert_eq!(placed.len(), 2);
    assert_ne!(placed[0].room, placed[1].room);
}

#[test]
fn random_room_machines_are_named_after_room() {
    let mut rng = rand::rng();
    for _ in 0..50 {
        let ms = random_room_machines(&"SW-31".to_string(), &mut rng);
        assert!((1..=3).contains(&ms.len()));
        for m in ms {
            assert_eq!(m.machine.id_name, format!("SW-31-{}", m.machine.machine_type.short_code()));
            let expected = machine_parts(m.machine.machine_type);
            assert_eq!(m.parts.vulnerabilities.0, expected.vulnerabilities.0);
            assert_eq!(m.parts.alarm_period_secs, expected.alarm_period_secs);
            assert_eq!(m.parts.reactor_threshold, expected.reactor_threshold);
            assert_eq!(m.parts.life_support, expected.life_support);
        }
    }
}

#[test]
fn machine_kinds() {
    assert_eq!(machine_vulnerabilities(MachineType::Reactor).0, vec![VulnerabilityType::HullBreach]);
    assert_eq!(machine_vulnerabilities(MachineType::LifeSupport).0, vec![VulnerabilityType::PowerShortage]);
    assert_eq!(
        machine_vulnerabilities(MachineType::Cooler).0,
        vec![VulnerabilityType::PowerShortage, VulnerabilityType::DoorMalfunction]
    );
    assert_eq!(alarm_period_secs(MachineType::Reactor), 5);
    assert_eq!(alarm_period_secs(MachineType::LifeSupport), 3);
    assert_eq!(alarm_period_secs(MachineType::Server), 4);
    assert!(uses_reactor_threshold(MachineType::Reactor));
    assert!(!uses_reactor_threshold(MachineType::Cooler));
    assert!(provides_life_support(MachineType::LifeSupport));
    assert!(!provides_life_support(MachineType::Server));
}

#[test]
fn room_machines_follow_picks() {
    let ms = room_machines_for(&"NE-12".to_string(), &vec![3, 0, 2]);
    let got: Vec<(String, MachineType)> = ms.iter().map(|m| (m.machine.id_name.clone(), m.machine.machine_type)).collect();
    assert_eq!(
        got,
        vec![
            ("NE-12-COL".to_string(), MachineType::Cooler),
            ("NE-12-RCT".to_string(), MachineType::Reactor),
            ("NE-12-SRV".to_string(), MachineType::Server),
        ]
    );
}

#[test]
fn every_pair_of_rooms_once_in_order() {
    assert_eq!(room_pairs(0), Vec::<(usize, usize)>::new());
    assert_eq!(room_pairs(1), Vec::<(usize, usize)>::new());
    assert_eq!(room_pairs(4), vec![(0, 1), (0, 2), (0, 3), (1, 2), (1, 3), (2, 3)]);
}

#[test]
fn touching_pairs_get_numbered_doors() {
    let names = door_names(&vec![false, true, false, true, true]);
    assert_eq!(
        names,
        vec![None, Some("D01".to_string()), None, Some("D02".to_string()), Some("D03".to_string())]
    );
    assert!(door_names(&Vec::new()).is_empty());
    assert_eq!(door_names(&vec![false, false]), vec![None, None]);
}

#[test]
fn parts_of_each_kind() {
    let r = machine_parts(MachineType::Reactor);
    assert!(r.reactor_threshold);
    assert_eq!(r.alarm_period_secs, 5);
    assert_eq!(r.vulnerabilities.0, vec![VulnerabilityType::HullBreach]);
    assert!(!r.life_support);

    let l = machine_parts(MachineType::LifeSupport);
    assert!(!l.reactor_threshold);
    assert_eq!(l.alarm_period_secs, 3);
    assert_eq!(l.vulnerabilities.0, vec![VulnerabilityType::PowerShortage]);
    assert!(l.life_support);

    for t in [MachineType::Server, MachineType::Cooler] {
        let p = machine_parts(t);
        assert!(!p.reactor_threshold);
        assert_eq!(p.alarm_period_secs, 4);
        assert_eq!(
            p.vulnerabilities.0,
            vec![VulnerabilityType::PowerShortage, VulnerabilityType::DoorMalfunction]
        );
        assert!(!p.life_support);
    }
}

#[test]
fn placed_and_drawn_machines_share_parts() {
    let ids: Vec<String> = vec!["A".to_string()];
    let placed = place_machines(&vec![0], &ids);
    assert_eq!(placed[0].machine.machine_type, MachineType::Reactor);
    let drawn = room_machines_for(&"B".to_string(), &vec![0, 1]);
    assert_eq!(drawn[0].machine.machine_type, MachineType::Reactor);
    assert_eq!(placed[0].parts.vulnerabilities.0, drawn[0].parts.vulnerabilities.0);
    assert_eq!(placed[0].parts.alarm_period_secs, drawn[0].parts.alarm_period_secs);
    assert_eq!(placed[0].parts.reactor_threshold, drawn[0].parts.reactor_threshold);
    assert_eq!(drawn[1].parts.alarm_period_secs, 3);
    assert!(drawn[1].parts.life_support);
}
