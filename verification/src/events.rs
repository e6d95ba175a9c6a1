//! What happens when a machine overheats, and what happens when repair
//! drones finish their work.
use vstd::prelude::*;
use vstd::string::*;

use crate::commands::ShipRoom;
use crate::random::{choose_vulnerability, thread_rng};
use crate::search::{first_index, lemma_first_index};
use crate::ship::{
    CriticalTemperatureEvent, Door, HullIntegrity, PowerState, Vulnerabilities, VulnerabilityType,
};
use crate::text::{decimal, push_decimal};

verus! {

/// An entity that can suffer from extreme heat: its power, its hull and
/// the ways it can fail.
#[derive(Debug, Clone)]
pub struct HazardTarget {
    pub entity: u64,
    pub power: PowerState,
    pub hull: HullIntegrity,
    pub vulnerabilities: Vulnerabilities,
}

/// How much hull one breach costs, in percent.
pub const HULL_BREACH_DAMAGE: u32 = 15;

/// Whether a door leads into the given entity.
pub open spec fn door_touching(e: u64) -> spec_fn(Door) -> bool {
    |d: Door| d.room_a == e || d.room_b == e
}

/// Whether a target is the given entity.
pub open spec fn target_is(e: u64) -> spec_fn(HazardTarget) -> bool {
    |t: HazardTarget| t.entity == e
}

/// What a disaster of the given kind does in an entity and the room it
/// reported: the power, hull and doors afterwards, and the warning printed,
/// if any.
///
/// A power shortage turns the power off, and is only reported when it was
/// on; a door malfunction jams the first door into the entity, opening it if
/// closed and closing it if open, or is reported as heat where no door leads
/// there; a hull breach costs [`HULL_BREACH_DAMAGE`] percent of hull, down
/// to zero.
pub open spec fn disaster_step(
    power: PowerState,
    hull: u32,
    doors: Seq<Door>,
    entity: u64,
    room_name: Seq<char>,
    v: VulnerabilityType,
) -> (PowerState, u32, Seq<Door>, Option<Seq<char>>) {
    match v {
        VulnerabilityType::PowerShortage => if power != PowerState::Offline {
            (
                PowerState::Offline,
                hull,
                doors,
                Some("⚠ DISASTER: Power shorted in "@ + room_name + " due to extreme heat!"@),
            )
        } else {
            (power, hull, doors, None)
        },
        VulnerabilityType::DoorMalfunction => {
            let i = first_index(doors, door_touching(entity));
            if i < doors.len() {
                let d = doors[i];
                (
                    power,
                    hull,
                    doors.update(i, Door { is_open: !d.is_open, ..d }),
                    Some(
                        "⚠ DISASTER: Thermal expansion jammed door "@ + d.id_name@ + " in "@
                            + room_name + "!"@,
                    ),
                )
            } else {
                (
                    power,
                    hull,
                    doors,
                    Some("⚠ WARNING: Extreme heat detected in "@ + room_name + "!"@),
                )
            }
        },
        VulnerabilityType::HullBreach => {
            let h: u32 = if hull > HULL_BREACH_DAMAGE {
                (hull - HULL_BREACH_DAMAGE) as u32
            } else {
                0
            };
            (
                power,
                h,
                doors,
                Some(
                    "⚠ CRITICAL: Hull integrity failing in "@ + room_name + " ("@ + decimal(
                        h as nat,
                    ) + "%)!"@,
                ),
            )
        },
    }
}

/// Carries out a disaster of the given kind in an entity, and returns the
/// warning to print, if any.
pub fn apply_vulnerability(
    chosen: VulnerabilityType,
    power: &mut PowerState,
    hull: &mut HullIntegrity,
    doors: &mut Vec<Door>,
    entity: u64,
    room_name: &str,
) -> (msg: Option<String>)
    ensures
        ({
            let st = disaster_step(*old(power), old(hull).0, old(doors)@, entity, room_name@, chosen);
            &&& *final(power) == st.0
            &&& final(hull).0 == st.1
            &&& final(doors)@ == st.2
            &&& match msg {
                Some(m) => st.3 == Some(m@),
                None => st.3 is None,
            }
        }),
{
    match chosen {
        VulnerabilityType::PowerShortage => {
            if *power != PowerState::Offline {
                *power = PowerState::Offline;
                let mut m = String::from_str("⚠ DISASTER: Power shorted in ");
                m.append(room_name);
                m.append(" due to extreme heat!");
                Some(m)
            } else {
                None
            }
        },
        VulnerabilityType::DoorMalfunction => {
            let ghost p = door_touching(entity);
            let mut i: usize = 0;
            while i < doors.len()
                invariant
                    i <= doors@.len(),
                    doors@ == old(doors)@,
                    chosen == VulnerabilityType::DoorMalfunction,
                    *power == *old(power),
                    *hull == *old(hull),
                    p == door_touching(entity),
                    forall|j: int| 0 <= j < i ==> !p(#[trigger] doors@[j]),
                decreases doors@.len() - i,
            {
                if doors[i].room_a == entity || doors[i].room_b == entity {
                    assert(p(doors@[i as int]));
                    proof {
                        lemma_first_index(doors@, p, i as int);
                    }
                    let mut d = doors.remove(i);
                    d.is_open = !d.is_open;
                    let mut m = String::from_str("⚠ DISASTER: Thermal expansion jammed door ");
                    m.append(d.id_name.as_str());
                    m.append(" in ");
                    m.append(room_name);
                    m.append("!");
                    let ghost nd = d;
                    doors.insert(i, d);
                    assert(nd == Door { is_open: !old(doors)@[i as int].is_open, ..old(doors)@[i as int] });
                    assert(doors@ =~= old(doors)@.update(i as int, nd));
                    return Some(m);
                }
                i = i + 1;
            }
            proof {
                lemma_first_index(doors@, p, doors@.len() as int);
            }
            let mut m = String::from_str("⚠ WARNING: Extreme heat detected in ");
            m.append(room_name);
            m.append("!");
            Some(m)
        },
        VulnerabilityType::HullBreach => {
            hull.0 = hull.0.saturating_sub(HULL_BREACH_DAMAGE);
            let mut m = String::from_str("⚠ CRITICAL: Hull integrity failing in ");
            m.append(room_name);
            m.append(" (");
            push_decimal(&mut m, hull.0 as u64);
            m.append("%)!");
            Some(m)
        },
    }
}

/// What one critical-temperature event does, given the disaster that
/// chance picks for it: the first target that is the event's entity, if it
/// has any vulnerability, suffers the disaster. Events for entities that
/// are not targets, or that have no vulnerability, do nothing.
pub open spec fn event_step(
    targets: Seq<HazardTarget>,
    doors: Seq<Door>,
    ev: CriticalTemperatureEvent,
    chosen: VulnerabilityType,
) -> (Seq<HazardTarget>, Seq<Door>, Option<Seq<char>>) {
    let j = first_index(targets, target_is(ev.entity));
    if j < targets.len() && targets[j].vulnerabilities.0@.len() > 0 {
        let t = targets[j];
        let st = disaster_step(t.power, t.hull.0, doors, ev.entity, ev.room_name@, chosen);
        (targets.update(j, HazardTarget { power: st.0, hull: HullIntegrity(st.1), ..t }), st.2, st.3)
    } else {
        (targets, doors, None)
    }
}

/// Whether the disaster picked for an event is one of the target's
/// vulnerabilities, where the event strikes a target that has any.
pub open spec fn choice_allowed(
    targets: Seq<HazardTarget>,
    ev: CriticalTemperatureEvent,
    chosen: VulnerabilityType,
) -> bool {
    let j = first_index(targets, target_is(ev.entity));
    j < targets.len() && targets[j].vulnerabilities.0@.len() > 0
        ==> targets[j].vulnerabilities.0@.contains(chosen)
}

/// What a sequence of events does, given the disaster picked for each;
/// `allowed` tells whether every pick was one the struck target allows.
pub open spec fn event_steps(
    targets: Seq<HazardTarget>,
    doors: Seq<Door>,
    events: Seq<CriticalTemperatureEvent>,
    choices: Seq<VulnerabilityType>,
) -> (Seq<HazardTarget>, Seq<Door>, Seq<Seq<char>>, bool)
    decreases events.len(),
{
    if events.len() == 0 {
        (targets, doors, Seq::empty(), true)
    } else {
        let prev = event_steps(targets, doors, events.drop_last(), choices.drop_last());
        let st = event_step(prev.0, prev.1, events.last(), choices.last());
        (
            st.0,
            st.1,
            match st.2 {
                Some(m) => prev.2.push(m),
                None => prev.2,
            },
            prev.3 && choice_allowed(prev.0, events.last(), choices.last()),
        )
    }
}

/// Resolves the critical-temperature events of one tick, in order: for each
/// event whose entity is a target with vulnerabilities, chance picks one of
/// them and the disaster strikes. Returns the warnings, in order.
///
/// The picks are up to chance; what is stated is that there are picks, each
/// one the struck target allows, for which the outcome is what
/// [`event_steps`] says.
pub fn resolve_critical_events(
    targets: &mut Vec<HazardTarget>,
    doors: &mut Vec<Door>,
    events: &Vec<CriticalTemperatureEvent>,
) -> (printed: Vec<String>)
    ensures
        exists|choices: Seq<VulnerabilityType>|
            {
                let st = #[trigger] event_steps(old(targets)@, old(doors)@, events@, choices);
                &&& choices.len() == events@.len()
                &&& st.3
                &&& final(targets)@ == st.0
                &&& final(doors)@ == st.1
                &&& printed@.map_values(|s: String| s@) == st.2
            },
{
    let mut rng = thread_rng();
    let ghost mut choices: Seq<VulnerabilityType> = Seq::empty();
    let mut printed: Vec<String> = Vec::new();
    let mut i: usize = 0;
    assert(events@.take(0) == Seq::<CriticalTemperatureEvent>::empty());
    while i < events.len()
        invariant
            i <= events@.len(),
            choices.len() == i,
            ({
                let st = event_steps(old(targets)@, old(doors)@, events@.take(i as int), choices);
                &&& st.3
                &&& targets@ == st.0
                &&& doors@ == st.1
                &&& printed@.map_values(|s: String| s@) == st.2
            }),
        decreases events@.len() - i,
    {
        let ev = &events[i];
        assert(events@.take(i + 1).drop_last() == events@.take(i as int));
        assert(events@.take(i + 1).last() == *ev);
        let ghost p = target_is(ev.entity);
        let ghost t0 = targets@;
        let mut j: usize = 0;
        while j < targets.len() && targets[j].entity != ev.entity
            invariant
                j <= targets@.len(),
                p == target_is(ev.entity),
                forall|k: int| 0 <= k < j ==> !p(#[trigger] targets@[k]),
            decreases targets@.len() - j,
        {
            j = j + 1;
        }
        proof {
            lemma_first_index(targets@, p, j as int);
        }
        let ghost mut pick = VulnerabilityType::PowerShortage;
        let ghost d0 = doors@;
        let ghost pr0 = printed@.map_values(|s: String| s@);
        let ghost old_choices = choices;
        if j < targets.len() {
            let chosen = choose_vulnerability(&mut rng, &targets[j].vulnerabilities.0);
            if let Some(v) = chosen {
                proof {
                    pick = v;
                }
                let mut t = targets.remove(j);
                let msg = apply_vulnerability(
                    v,
                    &mut t.power,
                    &mut t.hull,
                    doors,
                    ev.entity,
                    ev.room_name.as_str(),
                );
                let ghost nt = t;
                targets.insert(j, t);
                assert(targets@ =~= t0.update(j as int, nt));
                if let Some(m) = msg {
                    let ghost before = printed@;
                    printed.push(m);
                    assert(printed@ == before.push(m));
                    assert(printed@.map_values(|s: String| s@) =~= before.map_values(
                        |s: String| s@,
                    ).push(m@));
                }
                assert(choice_allowed(t0, *ev, pick));
            }
        }
        proof {
            choices = choices.push(pick);
            assert(choices.drop_last() == old_choices);
            let st = event_step(t0, d0, *ev, pick);
            assert(targets@ == st.0);
            assert(doors@ == st.1);
            assert(printed@.map_values(|s: String| s@) == match st.2 {
                Some(m) => pr0.push(m),
                None => pr0,
            });
            assert(choice_allowed(t0, *ev, pick));
        }
        i = i + 1;
    }
    assert(events@.take(events@.len() as int) == events@);
    printed
}

/// What finished repair drones leave behind: a whole hull, no drones at
/// work, and the report.
pub open spec fn repair_done_step(r: ShipRoom) -> (ShipRoom, Seq<char>) {
    (
        ShipRoom { hull: HullIntegrity(100), repairing: false, ..r },
        "DRONES: Hull integrity fully restored in "@ + r.name@ + "."@,
    )
}

/// The repair drones in a room finished their work: its hull is whole again
/// and the drones leave. Returns the report.
pub fn complete_repair(room: &mut ShipRoom) -> (msg: String)
    ensures
        *final(room) == repair_done_step(*old(room)).0,
        msg@ == repair_done_step(*old(room)).1,
{
    room.hull = HullIntegrity(100);
    room.repairing = false;
    let mut m = String::from_str("DRONES: Hull integrity fully restored in ");
    m.append(room.name.as_str());
    m.append(".");
    m
}

} // verus!
