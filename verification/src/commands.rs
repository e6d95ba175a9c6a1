//! The commands of the terminal and what they do to the ship.
use vstd::prelude::*;
use vstd::string::*;

use crate::input::CommandQueue;
use crate::parser::{parse_command, parse_command_spec, CommandMeaning, ParsedCommand};
use crate::search::{first_index, lemma_first_index};
use crate::ship::{power_label, power_name, Door, HullIntegrity, PowerState};
use crate::text::{
    chars_of, contains_chars, contains_spec, decimal, eq_ignore_ascii_case,
    eq_ignore_ascii_case_spec, lowercase_of, push_decimal, to_lowercase,
};

verus! {

/// A room as the command handlers see it: its name, its power, its hull,
/// whether repair drones were already at work in it when the commands
/// started, and whether the commands ordered drones to it. An order takes
/// effect once the commands of the frame are done, so `repairing` stays as
/// it was while they run.
#[derive(Debug, Clone)]
pub struct ShipRoom {
    pub name: String,
    pub power: PowerState,
    pub hull: HullIntegrity,
    pub repairing: bool,
    pub repair_ordered: bool,
}

/// The text that `help` prints.
pub open spec fn help_text() -> Seq<char> {
    "AVAILABLE COMMANDS:\n* status\n* help\n* door <id>\n* power <room> <off|on|over>\n* repair <room>"@
}

/// Whether a door has the given name, up to ASCII case.
pub open spec fn door_named(id: Seq<char>) -> spec_fn(Door) -> bool {
    |d: Door| eq_ignore_ascii_case_spec(d.id_name@, id)
}

/// Whether a room's name, in lower case, contains the given text in lower case.
pub open spec fn room_matching(target: Seq<char>) -> spec_fn(ShipRoom) -> bool {
    |r: ShipRoom| contains_spec(lowercase_of(r.name@), lowercase_of(target))
}

/// The reply when no room matches.
pub open spec fn room_not_found(target: Seq<char>) -> Seq<char> {
    "ERROR: ROOM MATCHING '"@ + target + "' NOT FOUND."@
}

/// `door <id>`: the first door with that name, up to ASCII case, opens if
/// it was closed and closes if it was open; and the reply.
pub open spec fn door_step(doors: Seq<Door>, id: Seq<char>) -> (Seq<Door>, Seq<char>) {
    let i = first_index(doors, door_named(id));
    if i < doors.len() {
        let d = doors[i];
        let open = !d.is_open;
        (
            doors.update(i, Door { is_open: open, ..d }),
            "DOOR "@ + d.id_name@ + " IS NOW "@ + (if open {
                "OPENED"@
            } else {
                "CLOSED"@
            }) + "."@,
        )
    } else {
        (doors, "ERROR: DOOR '"@ + id + "' NOT FOUND."@)
    }
}

/// The power state that a word of the `power` command names.
pub open spec fn power_from_word(w: Seq<char>) -> Option<PowerState> {
    if w == "off"@ || w == "offline"@ {
        Some(PowerState::Offline)
    } else if w == "on"@ || w == "active"@ {
        Some(PowerState::Active)
    } else if w == "over"@ || w == "overcharge"@ {
        Some(PowerState::Overcharged)
    } else {
        None
    }
}

/// `power <room> <state>`: the first room whose name matches is set to the
/// state that the word names, in lower case; and the reply.
pub open spec fn power_step(rooms: Seq<ShipRoom>, target: Seq<char>, state: Seq<char>) -> (
    Seq<ShipRoom>,
    Seq<char>,
) {
    match power_from_word(lowercase_of(state)) {
        None => (rooms, "ERROR: INVALID POWER STATE '"@ + state + "'. USE: on, off, over"@),
        Some(p) => {
            let i = first_index(rooms, room_matching(target));
            if i < rooms.len() {
                (
                    rooms.update(i, ShipRoom { power: p, ..rooms[i] }),
                    "POWER ROUTING: "@ + rooms[i].name@ + " is now "@ + power_name(p),
                )
            } else {
                (rooms, room_not_found(target))
            }
        },
    }
}

/// `repair <room>`: drones are ordered to the first room whose name
/// matches, unless they were already at work there or its hull is whole;
/// and the reply.
pub open spec fn repair_step(rooms: Seq<ShipRoom>, target: Seq<char>) -> (
    Seq<ShipRoom>,
    Seq<char>,
) {
    let i = first_index(rooms, room_matching(target));
    if i < rooms.len() {
        let r = rooms[i];
        if r.repairing {
            (rooms, "ERROR: Repair drones are already deployed in "@ + r.name@ + "."@)
        } else if r.hull.0 >= 100 {
            (rooms, "INFO: Hull is already at optimal integrity in "@ + r.name@ + "."@)
        } else {
            (
                rooms.update(i, ShipRoom { repair_ordered: true, ..r }),
                "DEPLOYING DRONES: Commencing hull repairs in "@ + r.name@ + ". ETA: 10s."@,
            )
        }
    } else {
        (rooms, room_not_found(target))
    }
}

/// The status line of a room; the entity's label and the temperature in
/// degrees Celsius are given as text.
pub open spec fn status_line(entity_label: Seq<char>, r: ShipRoom, temp_label: Seq<char>) -> Seq<
    char,
> {
    entity_label + " | Room: "@ + r.name@ + " | Temp: "@ + temp_label + "°C | Power: "@
        + power_name(r.power) + " | Hull: "@ + decimal(r.hull.0 as nat) + "% "@ + (
    if r.repairing {
        "[REPAIRING]"@
    } else {
        Seq::empty()
    })
}

/// `status`: a heading, then one status line per room, in order.
pub open spec fn status_report(
    rooms: Seq<ShipRoom>,
    entity_labels: Seq<Seq<char>>,
    temp_labels: Seq<Seq<char>>,
) -> Seq<Seq<char>> {
    seq!["--- SHIP STATUS ---"@] + Seq::new(
        rooms.len(),
        |i: int| status_line(entity_labels[i], rooms[i], temp_labels[i]),
    )
}

/// What one command line does: the rooms and doors after it, and the lines
/// it prints, starting with the echo of the command.
pub open spec fn command_step(
    rooms: Seq<ShipRoom>,
    doors: Seq<Door>,
    cmd: Seq<char>,
    entity_labels: Seq<Seq<char>>,
    temp_labels: Seq<Seq<char>>,
) -> (Seq<ShipRoom>, Seq<Door>, Seq<Seq<char>>) {
    let echo = "> "@ + cmd;
    match parse_command_spec(cmd) {
        CommandMeaning::Status => (
            rooms,
            doors,
            seq![echo] + status_report(rooms, entity_labels, temp_labels),
        ),
        CommandMeaning::Help => (rooms, doors, seq![echo, help_text()]),
        CommandMeaning::ToggleDoor(id) => {
            let st = door_step(doors, id);
            (rooms, st.0, seq![echo, st.1])
        },
        CommandMeaning::SetPower(target, state) => {
            let st = power_step(rooms, target, state);
            (st.0, doors, seq![echo, st.1])
        },
        CommandMeaning::Repair(target) => {
            let st = repair_step(rooms, target);
            (st.0, doors, seq![echo, st.1])
        },
        CommandMeaning::Unknown(c) => (rooms, doors, seq![echo, "COMMAND NOT FOUND: "@ + c]),
        CommandMeaning::Empty => (rooms, doors, seq![echo]),
    }
}

/// What a sequence of command lines does, one after the other.
pub open spec fn command_steps(
    rooms: Seq<ShipRoom>,
    doors: Seq<Door>,
    cmds: Seq<Seq<char>>,
    entity_labels: Seq<Seq<char>>,
    temp_labels: Seq<Seq<char>>,
) -> (Seq<ShipRoom>, Seq<Door>, Seq<Seq<char>>)
    decreases cmds.len(),
{
    if cmds.len() == 0 {
        (rooms, doors, Seq::empty())
    } else {
        let prev = command_steps(rooms, doors, cmds.drop_last(), entity_labels, temp_labels);
        let st = command_step(prev.0, prev.1, cmds.last(), entity_labels, temp_labels);
        (st.0, st.1, prev.2 + st.2)
    }
}

/// A command never adds or removes rooms.
pub proof fn lemma_command_step_len(
    rooms: Seq<ShipRoom>,
    doors: Seq<Door>,
    cmd: Seq<char>,
    entity_labels: Seq<Seq<char>>,
    temp_labels: Seq<Seq<char>>,
)
    ensures
        command_step(rooms, doors, cmd, entity_labels, temp_labels).0.len() == rooms.len(),
{
    match parse_command_spec(cmd) {
        CommandMeaning::SetPower(target, state) => {
            crate::search::lemma_first_index_bounds(rooms, room_matching(target));
        },
        CommandMeaning::Repair(target) => {
            crate::search::lemma_first_index_bounds(rooms, room_matching(target));
        },
        _ => {},
    }
}

/// The text views of a sequence of strings.
pub open spec fn texts(v: Seq<String>) -> Seq<Seq<char>> {
    v.map_values(|s: String| s@)
}

fn concat3(a: &str, b: &str, c: &str) -> (r: String)
    ensures
        r@ == a@ + b@ + c@,
{
    let mut r = String::from_str(a);
    r.append(b);
    r.append(c);
    r
}

/// The text that `help` prints.
pub fn handle_help() -> (r: String)
    ensures
        r@ == help_text(),
{
    String::from_str(
        "AVAILABLE COMMANDS:\n* status\n* help\n* door <id>\n* power <room> <off|on|over>\n* repair <room>",
    )
}

/// `door <id>`: opens or closes the first door with that name, up to ASCII
/// case, and returns the reply.
pub fn handle_door(doors: &mut Vec<Door>, door_id: &str) -> (msg: String)
    ensures
        final(doors)@ == door_step(old(doors)@, door_id@).0,
        msg@ == door_step(old(doors)@, door_id@).1,
{
    let id = chars_of(door_id);
    let ghost p = door_named(door_id@);
    let mut i: usize = 0;
    while i < doors.len()
        invariant
            i <= doors@.len(),
            id@ == door_id@,
            p == door_named(door_id@),
            doors@ == old(doors)@,
            forall|j: int| 0 <= j < i ==> !p(#[trigger] doors@[j]),
        decreases doors@.len() - i,
    {
        let name = chars_of(doors[i].id_name.as_str());
        let same = eq_ignore_ascii_case(&name, &id);
        assert(name@ == doors@[i as int].id_name@);
        assert(same == eq_ignore_ascii_case_spec(doors@[i as int].id_name@, door_id@));
        assert(p(doors@[i as int]) == eq_ignore_ascii_case_spec(doors@[i as int].id_name@, door_id@));
        assert(p(doors@[i as int]) == same);
        if same {
            proof {
                lemma_first_index(doors@, p, i as int);
            }
            let mut d = doors.remove(i);
            let open = !d.is_open;
            d.is_open = open;
            let mut msg = concat3("DOOR ", d.id_name.as_str(), " IS NOW ");
            if open {
                msg.append("OPENED");
            } else {
                msg.append("CLOSED");
            }
            msg.append(".");
            doors.insert(i, d);
            assert(doors@ =~= old(doors)@.update(
                i as int,
                Door { is_open: open, ..old(doors)@[i as int] },
            ));
            return msg;
        }
        i = i + 1;
    }
    proof {
        lemma_first_index(doors@, p, doors@.len() as int);
    }
    concat3("ERROR: DOOR '", door_id, "' NOT FOUND.")
}

/// The power state that a word names; the word is already in lower case.
pub fn power_from_lowered(w: &str) -> (r: Option<PowerState>)
    ensures
        r == power_from_word(w@),
{
    let c = chars_of(w);
    if crate::parser::chars_equal_str(&c, "off") || crate::parser::chars_equal_str(&c, "offline") {
        Some(PowerState::Offline)
    } else if crate::parser::chars_equal_str(&c, "on") || crate::parser::chars_equal_str(
        &c,
        "active",
    ) {
        Some(PowerState::Active)
    } else if crate::parser::chars_equal_str(&c, "over") || crate::parser::chars_equal_str(
        &c,
        "overcharge",
    ) {
        Some(PowerState::Overcharged)
    } else {
        None
    }
}

/// The index of the first room whose name, in lower case, contains the
/// target in lower case; the number of rooms when none does.
fn find_room(rooms: &Vec<ShipRoom>, target: &str) -> (i: usize)
    ensures
        i == first_index(rooms@, room_matching(target@)),
        i <= rooms@.len(),
{
    let lowered_target = to_lowercase(target);
    let t = chars_of(lowered_target.as_str());
    let ghost p = room_matching(target@);
    let mut i: usize = 0;
    while i < rooms.len()
        invariant
            i <= rooms@.len(),
            t@ == lowercase_of(target@),
            p == room_matching(target@),
            forall|j: int| 0 <= j < i ==> !p(#[trigger] rooms@[j]),
        decreases rooms@.len() - i,
    {
        let lowered_name = to_lowercase(rooms[i].name.as_str());
        let n = chars_of(lowered_name.as_str());
        let found = contains_chars(&n, &t);
        assert(p(rooms@[i as int]) == found);
        if found {
            proof {
                lemma_first_index(rooms@, p, i as int);
            }
            return i;
        }
        i = i + 1;
    }
    proof {
        lemma_first_index(rooms@, p, rooms@.len() as int);
    }
    i
}

/// `power <room> <state>`: sets the power of the first room whose name
/// matches, and returns the reply.
pub fn handle_power(rooms: &mut Vec<ShipRoom>, target_room: &str, state_str: &str) -> (msg:
    String)
    ensures
        final(rooms)@ == power_step(old(rooms)@, target_room@, state_str@).0,
        msg@ == power_step(old(rooms)@, target_room@, state_str@).1,
{
    let lowered_state = to_lowercase(state_str);
    let new_state = match power_from_lowered(lowered_state.as_str()) {
        Some(p) => p,
        None => {
            return concat3(
                "ERROR: INVALID POWER STATE '",
                state_str,
                "'. USE: on, off, over",
            );
        },
    };
    let i = find_room(rooms, target_room);
    if i < rooms.len() {
        let mut r = rooms.remove(i);
        r.power = new_state;
        let mut msg = concat3("POWER ROUTING: ", r.name.as_str(), " is now ");
        let label = power_label(new_state);
        msg.append(label.as_str());
        rooms.insert(i, r);
        assert(rooms@ =~= old(rooms)@.update(
            i as int,
            ShipRoom { power: new_state, ..old(rooms)@[i as int] },
        ));
        msg
    } else {
        concat3("ERROR: ROOM MATCHING '", target_room, "' NOT FOUND.")
    }
}

/// `repair <room>`: orders repair drones to the first room whose name
/// matches, unless they were already at work there or its hull is whole,
/// and returns the reply.
pub fn handle_repair(rooms: &mut Vec<ShipRoom>, target_room: &str) -> (msg: String)
    ensures
        final(rooms)@ == repair_step(old(rooms)@, target_room@).0,
        msg@ == repair_step(old(rooms)@, target_room@).1,
{
    let i = find_room(rooms, target_room);
    if i < rooms.len() {
        if rooms[i].repairing {
            return concat3(
                "ERROR: Repair drones are already deployed in ",
                rooms[i].name.as_str(),
                ".",
            );
        }
        if rooms[i].hull.0 >= 100 {
            return concat3(
                "INFO: Hull is already at optimal integrity in ",
                rooms[i].name.as_str(),
                ".",
            );
        }
        let mut r = rooms.remove(i);
        r.repair_ordered = true;
        let msg = concat3(
            "DEPLOYING DRONES: Commencing hull repairs in ",
            r.name.as_str(),
            ". ETA: 10s.",
        );
        rooms.insert(i, r);
        assert(rooms@ =~= old(rooms)@.update(
            i as int,
            ShipRoom { repair_ordered: true, ..old(rooms)@[i as int] },
        ));
        msg
    } else {
        concat3("ERROR: ROOM MATCHING '", target_room, "' NOT FOUND.")
    }
}

/// The status line of a room.
fn status_line_of(entity_label: &str, r: &ShipRoom, temp_label: &str) -> (s: String)
    ensures
        s@ == status_line(entity_label@, *r, temp_label@),
{
    let mut s = concat3(entity_label, " | Room: ", r.name.as_str());
    s.append(" | Temp: ");
    s.append(temp_label);
    s.append("°C | Power: ");
    let label = power_label(r.power);
    s.append(label.as_str());
    s.append(" | Hull: ");
    push_decimal(&mut s, r.hull.0 as u64);
    s.append("% ");
    if r.repairing {
        s.append("[REPAIRING]");
    }
    s
}

/// `status`: a heading and one line per room. The entity labels and the
/// temperature labels of the rooms are given in the order of the rooms.
pub fn handle_status(
    rooms: &Vec<ShipRoom>,
    entity_labels: &Vec<String>,
    temp_labels: &Vec<String>,
) -> (lines: Vec<String>)
    requires
        entity_labels@.len() == rooms@.len(),
        temp_labels@.len() == rooms@.len(),
    ensures
        texts(lines@) == status_report(rooms@, texts(entity_labels@), texts(temp_labels@)),
{
    let ghost el = texts(entity_labels@);
    let ghost tl = texts(temp_labels@);
    let ghost body = Seq::new(rooms@.len(), |i: int| status_line(el[i], rooms@[i], tl[i]));
    let mut lines: Vec<String> = Vec::new();
    lines.push(String::from_str("--- SHIP STATUS ---"));
    let mut i: usize = 0;
    while i < rooms.len()
        invariant
            i <= rooms@.len() == entity_labels@.len() == temp_labels@.len(),
            el == texts(entity_labels@),
            tl == texts(temp_labels@),
            body == Seq::new(rooms@.len(), |i: int| status_line(el[i], rooms@[i], tl[i])),
            texts(lines@) == seq!["--- SHIP STATUS ---"@] + body.take(i as int),
        decreases rooms@.len() - i,
    {
        let line = status_line_of(entity_labels[i].as_str(), &rooms[i], temp_labels[i].as_str());
        let ghost before = lines@;
        lines.push(line);
        assert(lines@ == before.push(line));
        assert(texts(lines@) == texts(before).push(line@));
        assert(el[i as int] == entity_labels@[i as int]@);
        assert(tl[i as int] == temp_labels@[i as int]@);
        assert(body[i as int] == line@);
        assert(body.take(i + 1) == body.take(i as int).push(body[i as int]));
        i = i + 1;
    }
    assert(body.take(rooms@.len() as int) == body);
    lines
}

/// Carries out every pending command, in order, and empties the queue.
/// Each command is echoed, then its reply follows. The entity labels and
/// temperature labels of the rooms serve the `status` command.
pub fn process_commands(
    queue: &mut CommandQueue,
    rooms: &mut Vec<ShipRoom>,
    doors: &mut Vec<Door>,
    entity_labels: &Vec<String>,
    temp_labels: &Vec<String>,
) -> (printed: Vec<String>)
    requires
        entity_labels@.len() == old(rooms)@.len(),
        temp_labels@.len() == old(rooms)@.len(),
    ensures
        final(queue).pending@.len() == 0,
        final(rooms)@ == command_steps(
            old(rooms)@,
            old(doors)@,
            old(queue).pending_view(),
            texts(entity_labels@),
            texts(temp_labels@),
        ).0,
        final(doors)@ == command_steps(
            old(rooms)@,
            old(doors)@,
            old(queue).pending_view(),
            texts(entity_labels@),
            texts(temp_labels@),
        ).1,
        texts(printed@) == command_steps(
            old(rooms)@,
            old(doors)@,
            old(queue).pending_view(),
            texts(entity_labels@),
            texts(temp_labels@),
        ).2,
{
    let ghost el = texts(entity_labels@);
    let ghost tl = texts(temp_labels@);
    let ghost cmds = old(queue).pending_view();
    let ghost r0 = rooms@;
    let ghost d0 = doors@;
    let mut pending: Vec<String> = Vec::new();
    std::mem::swap(&mut pending, &mut queue.pending);
    let mut printed: Vec<String> = Vec::new();
    let mut i: usize = 0;
    assert(cmds.take(0) == Seq::<Seq<char>>::empty());
    while i < pending.len()
        invariant
            i <= pending@.len(),
            texts(pending@) == cmds,
            queue.pending@.len() == 0,
            rooms@.len() == entity_labels@.len() == temp_labels@.len(),
            el == texts(entity_labels@),
            tl == texts(temp_labels@),
            rooms@ == command_steps(r0, d0, cmds.take(i as int), el, tl).0,
            doors@ == command_steps(r0, d0, cmds.take(i as int), el, tl).1,
            texts(printed@) == command_steps(r0, d0, cmds.take(i as int), el, tl).2,
        decreases pending@.len() - i,
    {
        let cmd_str = &pending[i];
        assert(cmds.take(i + 1).drop_last() == cmds.take(i as int));
        assert(cmds.take(i + 1).last() == cmd_str@);
        let ghost rs = rooms@;
        let ghost ds = doors@;
        let ghost pr = texts(printed@);
        let ghost st = command_step(rs, ds, cmd_str@, el, tl);
        let parsed = parse_command(cmd_str.as_str());
        let mut out: Vec<String> = Vec::new();
        let mut echo = String::from_str("> ");
        echo.append(cmd_str.as_str());
        let ghost echo_v = echo@;
        out.push(echo);
        assert(texts(out@) == seq![echo_v]);
        assert(parsed@ == parse_command_spec(cmd_str@));
        match parsed {
            ParsedCommand::Status => {
                let mut report = handle_status(rooms, entity_labels, temp_labels);
                let ghost rep = report@;
                out.append(&mut report);
                assert(texts(out@) =~= seq![echo_v] + texts(rep));
            },
            ParsedCommand::Help => {
                let m = handle_help();
                let ghost mv = m@;
                out.push(m);
                assert(texts(out@) =~= seq![echo_v, mv]);
            },
            ParsedCommand::ToggleDoor(door_id) => {
                let m = handle_door(doors, door_id.as_str());
                let ghost mv = m@;
                out.push(m);
                assert(texts(out@) =~= seq![echo_v, mv]);
            },
            ParsedCommand::SetPower(target, state) => {
                let m = handle_power(rooms, target.as_str(), state.as_str());
                let ghost mv = m@;
                out.push(m);
                assert(texts(out@) =~= seq![echo_v, mv]);
            },
            ParsedCommand::Repair(target) => {
                let m = handle_repair(rooms, target.as_str());
                let ghost mv = m@;
                out.push(m);
                assert(texts(out@) =~= seq![echo_v, mv]);
            },
            ParsedCommand::Unknown(cmd) => {
                let mut m = String::from_str("COMMAND NOT FOUND: ");
                m.append(cmd.as_str());
                let ghost mv = m@;
                out.push(m);
                assert(texts(out@) =~= seq![echo_v, mv]);
            },
            ParsedCommand::Empty => {},
        }
        proof {
            lemma_command_step_len(rs, ds, cmd_str@, el, tl);
        }
        assert(rooms@ == st.0);
        assert(doors@ == st.1);
        assert(texts(out@) == st.2);
        let ghost out_v = out@;
        let ghost printed_before = printed@;
        printed.append(&mut out);
        assert(texts(printed@) == pr + st.2) by {
            assert(printed@ == printed_before + out_v);
            assert(texts(printed_before + out_v) =~= texts(printed_before) + texts(out_v));
        }
        i = i + 1;
    }
    assert(cmds.take(pending@.len() as int) == cmds);
    printed
}

} // verus!
