//! Properties of the terminal and the ship that span several operations.
use vstd::prelude::*;

use crate::commands::{
    command_steps, door_named, door_step, power_from_word, power_step, repair_step, room_matching,
    ShipRoom,
};
use crate::generator::{machines_for_picks, placement_follows, BuiltMachine, MachinePlacement};
use crate::events::{disaster_step, door_touching, event_step, repair_done_step, HazardTarget};
use crate::history::{max_scroll, scroll_steps, view_end, view_start, ScrollDirection, VISIBLE_LINES};
use crate::input::{input_wf, key_step, printable, InputState, KeyMeaning};
use crate::search::{first_index, lemma_first_index, lemma_first_index_bounds};
use crate::ship::{power_name, Door, MachineType, PowerState, VulnerabilityType};
use crate::window::{window_step, PointerFrame, SizeChange, WindowControl};
use crate::text::{is_control_spec, is_whitespace_spec, trim, trim_end, trim_start};

verus! {

proof fn lemma_trim_start_shape(s: Seq<char>)
    ensures
        s.len() >= trim_start(s).len(),
        trim_start(s) == s.skip(s.len() - trim_start(s).len()),
        trim_start(s).len() > 0 ==> !is_whitespace_spec(trim_start(s)[0]),
    decreases s.len(),
{
    if s.len() > 0 && is_whitespace_spec(s[0]) {
        lemma_trim_start_shape(s.drop_first());
        assert(s.drop_first().skip(s.drop_first().len() - trim_start(s).len()) == s.skip(
            s.len() - trim_start(s).len(),
        ));
    } else {
        assert(s.skip(0) == s);
    }
}

proof fn lemma_trim_end_shape(s: Seq<char>)
    ensures
        s.len() >= trim_end(s).len(),
        trim_end(s) == s.take(trim_end(s).len() as int),
        trim_end(s).len() > 0 ==> !is_whitespace_spec(trim_end(s).last()),
    decreases s.len(),
{
    if s.len() > 0 && is_whitespace_spec(s.last()) {
        lemma_trim_end_shape(s.drop_last());
        assert(s.drop_last().take(trim_end(s).len() as int) == s.take(trim_end(s).len() as int));
    } else {
        assert(s.take(s.len() as int) == s);
    }
}

/// Trimming a text that is already trimmed changes nothing.
pub proof fn law_trim_idempotent(s: Seq<char>)
    ensures
        trim(trim(s)) == trim(s),
{
    let a = trim_start(s);
    let b = trim_end(a);
    lemma_trim_start_shape(s);
    lemma_trim_end_shape(a);
    if b.len() > 0 {
        assert(b[0] == a[0]);
        assert(!is_whitespace_spec(b.last()));
    }
    assert(trim_start(b) == b);
    assert(trim_end(b) == b);
}

/// White space around a command line does not change what it means.
pub proof fn law_parse_ignores_surrounding_space(s: Seq<char>)
    ensures
        crate::parser::parse_command_spec(trim(s)) == crate::parser::parse_command_spec(s),
{
    law_trim_idempotent(s);
}

/// A command that the input line submits is never blank and has no white
/// space at either end.
pub proof fn law_submitted_commands_are_trimmed(s: InputState, k: KeyMeaning, ctrl: bool)
    ensures
        key_step(s, k, ctrl).1 matches Some(cmd) ==> cmd.len() > 0 && trim(cmd) == cmd,
{
    law_trim_idempotent(s.buffer);
}

/// Every key keeps the input line well formed: the cursor stays within the
/// text and the history index within the history or just past its end.
pub proof fn law_keys_keep_input_wf(s: InputState, k: KeyMeaning, ctrl: bool)
    requires
        input_wf(s),
    ensures
        input_wf(key_step(s, k, ctrl).0),
{
    match k {
        KeyMeaning::Character(t) => {
            if !(ctrl && (crate::input::is_letter_key(k, 'c') || crate::input::is_letter_key(
                k,
                'u',
            ))) {
                let p = printable(t);
                assert(crate::input::insert_at(s.buffer, s.cursor as int, p).len() == s.buffer.len()
                    + p.len());
            }
        },
        _ => {},
    }
}

/// Typing a printable character and then pressing Backspace leaves the
/// input line as it was.
pub proof fn law_type_then_backspace(s: InputState, c: char)
    requires
        input_wf(s),
        !is_control_spec(c),
    ensures
        key_step(key_step(s, KeyMeaning::Character(seq![c]), false).0, KeyMeaning::Backspace, false).0
            == s,
{
    assert(seq![c].drop_last() == Seq::<char>::empty());
    assert(seq![c].last() == c);
    reveal_with_fuel(printable, 2);
    assert(printable(seq![c]) =~= seq![c]);
    let s1 = key_step(s, KeyMeaning::Character(seq![c]), false).0;
    assert(s1.buffer.remove(s.cursor as int) =~= s.buffer);
}

/// Moving the cursor left and then right brings it back, where it could
/// move left.
pub proof fn law_left_then_right(s: InputState)
    requires
        input_wf(s),
        s.cursor > 0,
    ensures
        key_step(key_step(s, KeyMeaning::ArrowLeft, false).0, KeyMeaning::ArrowRight, false).0
            == s,
{
}

/// After a command is submitted, the up arrow brings it back to the input
/// line, with the cursor at its end.
pub proof fn law_enter_then_up_recalls(s: InputState)
    requires
        input_wf(s),
        trim(s.buffer).len() > 0,
    ensures
        ({
            let s1 = key_step(s, KeyMeaning::Enter, false).0;
            let s2 = key_step(s1, KeyMeaning::ArrowUp, false).0;
            &&& key_step(s, KeyMeaning::Enter, false).1 == Some(trim(s.buffer))
            &&& s2.buffer == trim(s.buffer)
            &&& s2.cursor == trim(s.buffer).len()
        }),
{
}

/// Turning the wheel up and then down returns the view to where it was,
/// where it could move up.
pub proof fn law_scroll_up_then_down(scroll: nat, len: nat)
    requires
        scroll < max_scroll(len),
    ensures
        scroll_steps(scroll, len, seq![ScrollDirection::Up, ScrollDirection::Down]) == scroll,
{
    let d = seq![ScrollDirection::Up, ScrollDirection::Down];
    assert(d.drop_last() == seq![ScrollDirection::Up]);
    assert(seq![ScrollDirection::Up].drop_last() == Seq::<ScrollDirection>::empty());
    reveal_with_fuel(scroll_steps, 3);
}

/// Turning the wheel down and then up returns the view to where it was,
/// where it could move down.
pub proof fn law_scroll_down_then_up(scroll: nat, len: nat)
    requires
        0 < scroll <= max_scroll(len),
    ensures
        scroll_steps(scroll, len, seq![ScrollDirection::Down, ScrollDirection::Up]) == scroll,
{
    let d = seq![ScrollDirection::Down, ScrollDirection::Up];
    assert(d.drop_last() == seq![ScrollDirection::Down]);
    assert(seq![ScrollDirection::Down].drop_last() == Seq::<ScrollDirection>::empty());
    reveal_with_fuel(scroll_steps, 3);
}

/// Wheel movements never scroll the view back further than it can go, nor
/// before the newest line.
pub proof fn law_scroll_stays_in_range(scroll: nat, len: nat, dirs: Seq<ScrollDirection>)
    requires
        scroll <= max_scroll(len),
    ensures
        scroll_steps(scroll, len, dirs) <= max_scroll(len),
    decreases dirs.len(),
{
    if dirs.len() > 0 {
        law_scroll_stays_in_range(scroll, len, dirs.drop_last());
    }
}

/// The view shows at most [`VISIBLE_LINES`] lines, and exactly that many
/// wherever there are that many lines before the scroll position.
pub proof fn law_view_size(len: nat, scroll: nat)
    ensures
        view_start(len, scroll) <= view_end(len, scroll) <= len,
        view_end(len, scroll) - view_start(len, scroll) <= VISIBLE_LINES,
        len >= scroll + VISIBLE_LINES ==> view_end(len, scroll) - view_start(len, scroll)
            == VISIBLE_LINES,
{
}

/// Toggling the same door twice leaves the doors as they were.
pub proof fn law_door_toggle_twice(doors: Seq<Door>, id: Seq<char>)
    ensures
        door_step(door_step(doors, id).0, id).0 == doors,
{
    let p = door_named(id);
    lemma_first_index_bounds(doors, p);
    let i = first_index(doors, p);
    if i < doors.len() {
        let d1 = door_step(doors, id).0;
        assert(p(d1[i]));
        assert forall|j: int| 0 <= j < i implies !p(#[trigger] d1[j]) by {
            assert(d1[j] == doors[j]);
        }
        lemma_first_index(d1, p, i);
        assert(d1.update(i, Door { is_open: !d1[i].is_open, ..d1[i] }) =~= doors);
    }
}

/// Asking for repairs of the same room twice in one frame is the same as
/// asking once: the same rooms afterwards and the same reply.
pub proof fn law_repair_twice(rooms: Seq<ShipRoom>, target: Seq<char>)
    ensures
        repair_step(repair_step(rooms, target).0, target) == repair_step(rooms, target),
{
    let p = room_matching(target);
    lemma_first_index_bounds(rooms, p);
    let i = first_index(rooms, p);
    let r1 = repair_step(rooms, target).0;
    if i < rooms.len() {
        assert(r1.len() == rooms.len());
        assert(p(r1[i]));
        assert forall|j: int| 0 <= j < i implies !p(#[trigger] r1[j]) by {
            assert(r1[j] == rooms[j]);
        }
        lemma_first_index(r1, p, i);
        if !rooms[i].repairing && rooms[i].hull.0 < 100 {
            assert(ShipRoom { repair_ordered: true, ..r1[i] } == r1[i]);
            assert(r1.update(i, ShipRoom { repair_ordered: true, ..r1[i] }) =~= r1);
        }
    }
}

/// Finished repairs leave a whole hull and no drones at work, whatever the
/// hull was.
pub proof fn law_repair_restores_hull(r: ShipRoom)
    ensures
        repair_done_step(r).0.hull.0 == 100,
        !repair_done_step(r).0.repairing,
        repair_done_step(r).0.name == r.name,
        repair_done_step(r).0.power == r.power,
{
}

/// Disasters never mend a hull: it keeps its integrity or loses some.
pub proof fn law_disasters_never_raise_hull(
    power: PowerState,
    hull: u32,
    doors: Seq<Door>,
    entity: u64,
    room_name: Seq<char>,
    v: VulnerabilityType,
)
    ensures
        disaster_step(power, hull, doors, entity, room_name, v).1 <= hull,
        disaster_step(power, hull, doors, entity, room_name, v).2.len() == doors.len(),
{
    match v {
        VulnerabilityType::DoorMalfunction => {
            lemma_first_index_bounds(doors, crate::events::door_touching(entity));
        },
        _ => {},
    }
}

/// A critical-temperature event keeps every target: its entity and its
/// vulnerabilities stay as they were, and no hull is mended.
pub proof fn law_events_keep_targets(
    targets: Seq<HazardTarget>,
    doors: Seq<Door>,
    ev: crate::ship::CriticalTemperatureEvent,
    chosen: VulnerabilityType,
)
    ensures
        event_step(targets, doors, ev, chosen).0.len() == targets.len(),
        forall|k: int|
            0 <= k < targets.len() ==> {
                let t = #[trigger] event_step(targets, doors, ev, chosen).0[k];
                &&& t.entity == targets[k].entity
                &&& t.vulnerabilities == targets[k].vulnerabilities
                &&& t.hull.0 <= targets[k].hull.0
            },
{
    let p = crate::events::target_is(ev.entity);
    lemma_first_index_bounds(targets, p);
    let j = first_index(targets, p);
    if j < targets.len() && targets[j].vulnerabilities.0@.len() > 0 {
        let t = targets[j];
        law_disasters_never_raise_hull(t.power, t.hull.0, doors, ev.entity, ev.room_name@, chosen);
    }
}

/// Commands never add or remove rooms or doors.
pub proof fn law_commands_keep_rooms_and_doors(
    rooms: Seq<ShipRoom>,
    doors: Seq<Door>,
    cmds: Seq<Seq<char>>,
    entity_labels: Seq<Seq<char>>,
    temp_labels: Seq<Seq<char>>,
)
    ensures
        command_steps(rooms, doors, cmds, entity_labels, temp_labels).0.len() == rooms.len(),
        command_steps(rooms, doors, cmds, entity_labels, temp_labels).1.len() == doors.len(),
    decreases cmds.len(),
{
    if cmds.len() > 0 {
        law_commands_keep_rooms_and_doors(rooms, doors, cmds.drop_last(), entity_labels, temp_labels);
        let prev = command_steps(rooms, doors, cmds.drop_last(), entity_labels, temp_labels);
        crate::commands::lemma_command_step_len(prev.0, prev.1, cmds.last(), entity_labels, temp_labels);
        match crate::parser::parse_command_spec(cmds.last()) {
            crate::parser::CommandMeaning::ToggleDoor(id) => {
                lemma_first_index_bounds(prev.1, door_named(id));
            },
            _ => {},
        }
    }
}

/// Pressing the minimize button twice leaves the window at the size it had,
/// and a release always ends a drag.
pub proof fn law_minimize_twice(w: WindowControl, f: PointerFrame)
    requires
        f.just_pressed,
        f.on_minimize_button,
    ensures
        window_step(window_step(w, f).0, f).0.is_minimized == w.is_minimized,
        f.just_released ==> !window_step(w, f).0.is_dragging,
{
}

/// A machine placed on the ship and a machine drawn for a room are built
/// with the same parts when they are of the same kind: the same overheat
/// threshold, alarm period, vulnerabilities and oxygen production.
pub proof fn law_same_kind_same_parts(
    placed: Seq<MachinePlacement>,
    order: Seq<usize>,
    room_ids: Seq<Seq<char>>,
    built: Seq<BuiltMachine>,
    room_id: Seq<char>,
    picks: Seq<u32>,
    k: int,
    j: int,
)
    requires
        placement_follows(placed, order, room_ids),
        machines_for_picks(built, room_id, picks),
        0 <= k < placed.len(),
        0 <= j < built.len(),
        placed[k].machine.machine_type == built[j].machine.machine_type,
    ensures
        placed[k].parts.reactor_threshold == built[j].parts.reactor_threshold,
        placed[k].parts.alarm_period_secs == built[j].parts.alarm_period_secs,
        placed[k].parts.vulnerabilities.0@ == built[j].parts.vulnerabilities.0@,
        placed[k].parts.life_support == built[j].parts.life_support,
{
}

/// `power <room> <state>` with a state it knows routes power to one room
/// only: the first whose name contains the target, up to case. That room
/// takes the new state and keeps everything else; every other room is left
/// as it was; and the reply names that room and the state.
pub proof fn law_power_changes_first_match_only(
    rooms: Seq<ShipRoom>,
    target: Seq<char>,
    state: Seq<char>,
    p: PowerState,
    i: int,
)
    requires
        power_from_word(crate::text::lowercase_of(state)) == Some(p),
        0 <= i < rooms.len(),
        room_matching(target)(rooms[i]),
        forall|j: int| 0 <= j < i ==> !room_matching(target)(#[trigger] rooms[j]),
    ensures
        power_step(rooms, target, state).0.len() == rooms.len(),
        power_step(rooms, target, state).0[i].power == p,
        power_step(rooms, target, state).0[i].name == rooms[i].name,
        power_step(rooms, target, state).0[i].hull == rooms[i].hull,
        power_step(rooms, target, state).0[i].repairing == rooms[i].repairing,
        power_step(rooms, target, state).0[i].repair_ordered == rooms[i].repair_ordered,
        forall|k: int|
            0 <= k < rooms.len() && k != i ==> #[trigger] power_step(rooms, target, state).0[k]
                == rooms[k],
        power_step(rooms, target, state).1 == "POWER ROUTING: "@ + rooms[i].name@ + " is now "@
            + power_name(p),
{
    lemma_first_index(rooms, room_matching(target), i);
}

/// `power` never changes a room whose name does not contain the target,
/// nor one that comes after another room whose name does.
pub proof fn law_power_leaves_other_rooms(
    rooms: Seq<ShipRoom>,
    target: Seq<char>,
    state: Seq<char>,
    k: int,
    j: int,
)
    requires
        0 <= k < rooms.len(),
        !room_matching(target)(rooms[k]) || (0 <= j < k && room_matching(target)(rooms[j])),
    ensures
        power_step(rooms, target, state).0.len() == rooms.len(),
        power_step(rooms, target, state).0[k] == rooms[k],
{
    lemma_first_index_bounds(rooms, room_matching(target));
}

/// `repair <room>` on a damaged room where no drones are at work orders
/// them there: below a whole hull of 100, the first room whose name
/// contains the target is marked as having drones ordered, nothing else
/// changes, and the reply announces the repairs.
pub proof fn law_repair_orders_drones_when_damaged(rooms: Seq<ShipRoom>, target: Seq<char>, i: int)
    requires
        0 <= i < rooms.len(),
        room_matching(target)(rooms[i]),
        forall|j: int| 0 <= j < i ==> !room_matching(target)(#[trigger] rooms[j]),
        !rooms[i].repairing,
        rooms[i].hull.0 < 100,
    ensures
        repair_step(rooms, target).0.len() == rooms.len(),
        repair_step(rooms, target).0[i].repair_ordered,
        repair_step(rooms, target).0[i].name == rooms[i].name,
        repair_step(rooms, target).0[i].power == rooms[i].power,
        repair_step(rooms, target).0[i].hull == rooms[i].hull,
        repair_step(rooms, target).0[i].repairing == rooms[i].repairing,
        forall|k: int|
            0 <= k < rooms.len() && k != i ==> #[trigger] repair_step(rooms, target).0[k]
                == rooms[k],
        repair_step(rooms, target).1 == "DEPLOYING DRONES: Commencing hull repairs in "@
            + rooms[i].name@ + ". ETA: 10s."@,
{
    lemma_first_index(rooms, room_matching(target), i);
}

/// `repair` refuses a room as already whole only when its hull is at 100:
/// whenever the reply is the one for a whole hull, the first room whose
/// name contains the target has a hull of 100 or more and no drones at
/// work, and nothing changes.
pub proof fn law_repair_refuses_only_whole_hull(rooms: Seq<ShipRoom>, target: Seq<char>, i: int)
    requires
        0 <= i < rooms.len(),
        room_matching(target)(rooms[i]),
        forall|j: int| 0 <= j < i ==> !room_matching(target)(#[trigger] rooms[j]),
        repair_step(rooms, target).1 == "INFO: Hull is already at optimal integrity in "@
            + rooms[i].name@ + "."@,
    ensures
        rooms[i].hull.0 >= 100,
        !rooms[i].repairing,
        repair_step(rooms, target).0 == rooms,
{
    lemma_first_index(rooms, room_matching(target), i);
    let info = "INFO: Hull is already at optimal integrity in "@ + rooms[i].name@ + "."@;
    let busy = "ERROR: Repair drones are already deployed in "@ + rooms[i].name@ + "."@;
    let go = "DEPLOYING DRONES: Commencing hull repairs in "@ + rooms[i].name@ + ". ETA: 10s."@;
    assert(info[0] == 'I') by {
        reveal_strlit("INFO: Hull is already at optimal integrity in ");
    }
    assert(busy[0] == 'E') by {
        reveal_strlit("ERROR: Repair drones are already deployed in ");
    }
    assert(go[0] == 'D') by {
        reveal_strlit("DEPLOYING DRONES: Commencing hull repairs in ");
    }
}

/// A jammed door changes state: a door malfunction flips whether the first
/// door into the entity is open (a closed door ends open, an open one
/// closed), keeps its name and rooms, leaves every other door, the power
/// and the hull as they were, and reports the door by name.
pub proof fn law_door_malfunction_flips_door(
    power: PowerState,
    hull: u32,
    doors: Seq<Door>,
    entity: u64,
    room_name: Seq<char>,
    i: int,
)
    requires
        0 <= i < doors.len(),
        doors[i].room_a == entity || doors[i].room_b == entity,
        forall|j: int|
            0 <= j < i ==> (#[trigger] doors[j]).room_a != entity && doors[j].room_b != entity,
    ensures
        ({
            let st = disaster_step(
                power,
                hull,
                doors,
                entity,
                room_name,
                VulnerabilityType::DoorMalfunction,
            );
            &&& st.0 == power
            &&& st.1 == hull
            &&& st.2.len() == doors.len()
            &&& st.2[i].is_open == !doors[i].is_open
            &&& st.2[i].id_name == doors[i].id_name
            &&& st.2[i].room_a == doors[i].room_a
            &&& st.2[i].room_b == doors[i].room_b
            &&& forall|k: int| 0 <= k < doors.len() && k != i ==> #[trigger] st.2[k] == doors[k]
            &&& st.3 == Some(
                "⚠ DISASTER: Thermal expansion jammed door "@ + doors[i].id_name@ + " in "@
                    + room_name + "!"@,
            )
        }),
{
    assert forall|j: int| 0 <= j < i implies !door_touching(entity)(#[trigger] doors[j]) by {}
    lemma_first_index(doors, door_touching(entity), i);
}

/// A generated ship gets seven machines when there are rooms enough: one
/// reactor, one life support, two servers and three coolers, in that order;
/// with fewer rooms, the first machines of that list, one per room.
pub proof fn law_ship_roster(
    placed: Seq<MachinePlacement>,
    order: Seq<usize>,
    room_ids: Seq<Seq<char>>,
)
    requires
        placement_follows(placed, order, room_ids),
    ensures
        order.len() >= 7 ==> placed.len() == 7,
        order.len() < 7 ==> placed.len() == order.len(),
        forall|k: int|
            0 <= k < placed.len() ==> (#[trigger] placed[k]).machine.machine_type == seq![
                MachineType::Reactor,
                MachineType::LifeSupport,
                MachineType::Server,
                MachineType::Server,
                MachineType::Cooler,
                MachineType::Cooler,
                MachineType::Cooler,
            ][k],
{
}

/// A press on the minimize button only minimizes or restores the window:
/// it never starts a drag (a drag under way goes on unless the button is
/// also released), and it reports the size it left the window at.
pub proof fn law_minimize_button_never_drags(w: WindowControl, f: PointerFrame)
    requires
        f.just_pressed,
        f.on_minimize_button,
    ensures
        window_step(w, f).0.is_dragging == (w.is_dragging && !f.just_released),
        window_step(w, f).0.is_minimized == !w.is_minimized,
        window_step(w, f).1 == (if w.is_minimized {
            SizeChange::Restored
        } else {
            SizeChange::Minimized
        }),
{
}

/// A drag goes on only while the button is held: the window is dragged
/// after a frame only if it already was, or the press fell on the title bar
/// away from the minimize button; and never in a frame where the button is
/// released. A frame never changes the size without a press on the button.
pub proof fn law_drag_starts_only_on_title_bar(w: WindowControl, f: PointerFrame)
    ensures
        window_step(w, f).0.is_dragging ==> !f.just_released && (w.is_dragging || (f.just_pressed
            && f.on_title_bar && !f.on_minimize_button)),
        window_step(w, f).0.is_minimized != w.is_minimized ==> f.just_pressed
            && f.on_minimize_button,
{
}

/// A door malfunction where no door leads into the entity changes nothing
/// and only warns of the heat.
pub proof fn law_door_malfunction_without_door(
    power: PowerState,
    hull: u32,
    doors: Seq<Door>,
    entity: u64,
    room_name: Seq<char>,
)
    requires
        forall|j: int|
            0 <= j < doors.len() ==> (#[trigger] doors[j]).room_a != entity && doors[j].room_b
                != entity,
    ensures
        disaster_step(power, hull, doors, entity, room_name, VulnerabilityType::DoorMalfunction)
            == (power, hull, doors, Some("⚠ WARNING: Extreme heat detected in "@ + room_name + "!"@)),
{
    assert forall|j: int| 0 <= j < doors.len() implies !door_touching(entity)(
        #[trigger] doors[j],
    ) by {}
    lemma_first_index(doors, door_touching(entity), doors.len() as int);
}

/// A power shortage takes the room offline, reporting it, unless it was
/// offline already, when nothing happens; hull and doors are untouched.
pub proof fn law_power_shortage_goes_offline(
    power: PowerState,
    hull: u32,
    doors: Seq<Door>,
    entity: u64,
    room_name: Seq<char>,
)
    ensures
        ({
            let st = disaster_step(
                power,
                hull,
                doors,
                entity,
                room_name,
                VulnerabilityType::PowerShortage,
            );
            &&& st.0 == PowerState::Offline
            &&& st.1 == hull
            &&& st.2 == doors
            &&& (st.3 is Some <==> power != PowerState::Offline)
        }),
{
}

/// A hull breach costs fifteen points of hull, never going below zero, and
/// leaves the power and the doors as they were.
pub proof fn law_hull_breach_costs_fifteen(
    power: PowerState,
    hull: u32,
    doors: Seq<Door>,
    entity: u64,
    room_name: Seq<char>,
)
    ensures
        ({
            let st = disaster_step(power, hull, doors, entity, room_name, VulnerabilityType::HullBreach);
            &&& st.0 == power
            &&& st.2 == doors
            &&& hull >= 15 ==> st.1 + 15 == hull
            &&& hull < 15 ==> st.1 == 0
            &&& st.3 is Some
        }),
{
}

/// `repair` on a room where drones are already at work changes nothing and
/// says so.
pub proof fn law_repair_never_doubles(rooms: Seq<ShipRoom>, target: Seq<char>, i: int)
    requires
        0 <= i < rooms.len(),
        room_matching(target)(rooms[i]),
        forall|j: int| 0 <= j < i ==> !room_matching(target)(#[trigger] rooms[j]),
        rooms[i].repairing,
    ensures
        repair_step(rooms, target) == (
            rooms,
            "ERROR: Repair drones are already deployed in "@ + rooms[i].name@ + "."@,
        ),
{
    lemma_first_index(rooms, room_matching(target), i);
}

/// `repair` never touches a room other than the first whose name contains
/// the target.
pub proof fn law_repair_leaves_other_rooms(rooms: Seq<ShipRoom>, target: Seq<char>, k: int, j: int)
    requires
        0 <= k < rooms.len(),
        !room_matching(target)(rooms[k]) || (0 <= j < k && room_matching(target)(rooms[j])),
    ensures
        repair_step(rooms, target).0.len() == rooms.len(),
        repair_step(rooms, target).0[k] == rooms[k],
{
    lemma_first_index_bounds(rooms, room_matching(target));
}

/// `power` with a state word it does not know changes no room.
pub proof fn law_power_unknown_state_changes_nothing(
    rooms: Seq<ShipRoom>,
    target: Seq<char>,
    state: Seq<char>,
)
    requires
        power_from_word(crate::text::lowercase_of(state)) is None,
    ensures
        power_step(rooms, target, state).0 == rooms,
{
}

} // verus!
