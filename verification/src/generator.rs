//! The plan of a procedurally generated ship: the names of its rooms and
//! doors, which machines it holds and where, and how each kind of machine
//! is built.
use vstd::prelude::*;
use vstd::string::*;

use rand::rngs::ThreadRng;

use crate::commands::texts;
use crate::random::{random_in, shuffle_indices};
use crate::ship::{short_code_spec, Machine, MachineType, Vulnerabilities, VulnerabilityType};
use crate::text::{decimal_pad2, push_char, push_decimal_pad2};

verus! {

/// The designation of a room: its quarter of the ship (north or south, east
/// or west of the centre) and a two-digit number, as in `NE-42`.
pub open spec fn room_designation_spec(north: bool, east: bool, number: nat) -> Seq<char> {
    seq![if north { 'N' } else { 'S' }, if east { 'E' } else { 'W' }, '-'] + decimal_pad2(number)
}

/// The designation of a room in the given quarter with the given number.
pub fn room_designation(north: bool, east: bool, number: u32) -> (r: String)
    ensures
        r@ == room_designation_spec(north, east, number as nat),
{
    let mut r = String::new();
    push_char(
        &mut r,
        if north {
            'N'
        } else {
            'S'
        },
    );
    push_char(
        &mut r,
        if east {
            'E'
        } else {
            'W'
        },
    );
    push_char(&mut r, '-');
    push_decimal_pad2(&mut r, number as u64);
    r
}

/// The designation of a new room in the given quarter, with a number drawn
/// by chance from 10 to 98.
pub fn random_room_designation(north: bool, east: bool, rng: &mut ThreadRng) -> (r: String)
    ensures
        exists|n: nat| 10 <= n < 99 && r@ == room_designation_spec(north, east, n),
{
    let number = random_in(rng, 10, 99);
    let r = room_designation(north, east, number);
    assert(r@ == room_designation_spec(north, east, number as nat));
    r
}

/// The name of the `count`-th door, as in `D07`.
pub open spec fn door_name_spec(count: nat) -> Seq<char> {
    seq!['D'] + decimal_pad2(count)
}

/// The name of the `count`-th door.
pub fn door_name(count: u64) -> (r: String)
    ensures
        r@ == door_name_spec(count as nat),
{
    let mut r = String::new();
    push_char(&mut r, 'D');
    push_decimal_pad2(&mut r, count);
    r
}

/// The pairs `(i, j)` with `j > i` for the rooms `0..rows` out of `n`,
/// row by row, each row in increasing `j`.
pub open spec fn room_pair_rows(rows: nat, n: nat) -> Seq<(usize, usize)>
    decreases rows,
{
    if rows == 0 {
        Seq::empty()
    } else {
        room_pair_rows((rows - 1) as nat, n) + room_pair_row((rows - 1) as nat, n)
    }
}

/// The pairs `(i, j)` with `i < j < n`, in increasing `j`.
pub open spec fn room_pair_row(i: nat, n: nat) -> Seq<(usize, usize)> {
    if i + 1 < n {
        Seq::new((n - i - 1) as nat, |k: int| (i as usize, (i + 1 + k) as usize))
    } else {
        Seq::empty()
    }
}

/// Every pair of `n` rooms, each once: `(i, j)` with `i < j < n`, in
/// increasing `i` and, for one `i`, in increasing `j`.
pub fn room_pairs(n: usize) -> (pairs: Vec<(usize, usize)>)
    ensures
        pairs@ == room_pair_rows(n as nat, n as nat),
{
    let mut pairs: Vec<(usize, usize)> = Vec::new();
    let mut i: usize = 0;
    while i < n
        invariant
            i <= n,
            pairs@ == room_pair_rows(i as nat, n as nat),
        decreases n - i,
    {
        let ghost row = room_pair_row(i as nat, n as nat);
        let ghost before = pairs@;
        let mut j: usize = i + 1;
        while j < n
            invariant
                i < n,
                i + 1 <= j <= n,
                row == room_pair_row(i as nat, n as nat),
                pairs@ == before + row.take(j - i - 1),
            decreases n - j,
        {
            pairs.push((i, j));
            assert(row.take(j - i) == row.take(j - i - 1).push((i, j)));
            j = j + 1;
        }
        assert(row.take(n - i - 1) == row);
        i = i + 1;
    }
    pairs
}

/// How many of the flags are set.
pub open spec fn count_set(flags: Seq<bool>) -> nat
    decreases flags.len(),
{
    if flags.len() == 0 {
        0
    } else {
        count_set(flags.drop_last()) + if flags.last() {
            1nat
        } else {
            0nat
        }
    }
}

proof fn lemma_count_set_bound(flags: Seq<bool>)
    ensures
        count_set(flags) <= flags.len(),
    decreases flags.len(),
{
    if flags.len() > 0 {
        lemma_count_set_bound(flags.drop_last());
    }
}

/// The doors between pairs of rooms: one for each pair that touches, named
/// `D01`, `D02`, ... in the order of the pairs; none for the others.
pub fn door_names(touching: &Vec<bool>) -> (names: Vec<Option<String>>)
    ensures
        names@.len() == touching@.len(),
        forall|k: int|
            0 <= k < touching@.len() ==> match #[trigger] names@[k] {
                Some(name) => touching@[k] && name@ == door_name_spec(
                    count_set(touching@.take(k)) + 1,
                ),
                None => !touching@[k],
            },
{
    let mut names: Vec<Option<String>> = Vec::new();
    let mut count: u64 = 0;
    let mut k: usize = 0;
    while k < touching.len()
        invariant
            k <= touching@.len(),
            names@.len() == k,
            count == count_set(touching@.take(k as int)),
            forall|q: int|
                0 <= q < k ==> match #[trigger] names@[q] {
                    Some(name) => touching@[q] && name@ == door_name_spec(
                        count_set(touching@.take(q)) + 1,
                    ),
                    None => !touching@[q],
                },
        decreases touching@.len() - k,
    {
        proof {
            lemma_count_set_bound(touching@.take(k as int));
        }
        assert(touching@.take(k + 1).drop_last() == touching@.take(k as int));
        assert(touching@.take(k + 1).last() == touching@[k as int]);
        if touching[k] {
            assert(count < u64::MAX);
            let name = door_name(count + 1);
            names.push(Some(name));
            count = count + 1;
        } else {
            names.push(None);
        }
        k = k + 1;
    }
    names
}

/// The machines that every generated ship receives, in the order in which
/// they are placed.
pub open spec fn machine_roster_spec() -> Seq<MachineType> {
    seq![
        MachineType::Reactor,
        MachineType::LifeSupport,
        MachineType::Server,
        MachineType::Server,
        MachineType::Cooler,
        MachineType::Cooler,
        MachineType::Cooler,
    ]
}

/// The machines that every generated ship receives.
pub fn machine_roster() -> (r: Vec<MachineType>)
    ensures
        r@ == machine_roster_spec(),
{
    let r = vec![
        MachineType::Reactor,
        MachineType::LifeSupport,
        MachineType::Server,
        MachineType::Server,
        MachineType::Cooler,
        MachineType::Cooler,
        MachineType::Cooler,
    ];
    assert(r@ == machine_roster_spec());
    r
}

/// The name of a machine of the given kind in the given room, as in `NE-42-RCT`.
pub open spec fn machine_name_spec(room_id: Seq<char>, t: MachineType) -> Seq<char> {
    room_id + seq!['-'] + short_code_spec(t)
}

/// The parts that a machine is built with besides its name and kind.
#[derive(Debug, Clone)]
pub struct MachineParts {
    /// Whether it overheats at the reactor's critical temperature rather
    /// than at the common one.
    pub reactor_threshold: bool,
    /// Seconds between two checks of its overheat alarm, which repeats.
    pub alarm_period_secs: u32,
    /// How it can fail under extreme heat.
    pub vulnerabilities: Vulnerabilities,
    /// Whether it produces oxygen.
    pub life_support: bool,
}

/// Whether `parts` are those that a machine of kind `t` is built with.
pub open spec fn parts_follow(parts: MachineParts, t: MachineType) -> bool {
    &&& parts.reactor_threshold == (t == MachineType::Reactor)
    &&& parts.alarm_period_secs == alarm_period_spec(t)
    &&& parts.vulnerabilities.0@ == vulnerabilities_spec(t)
    &&& parts.life_support == (t == MachineType::LifeSupport)
}

/// The parts that a machine of the given kind is built with.
pub fn machine_parts(t: MachineType) -> (parts: MachineParts)
    ensures
        parts_follow(parts, t),
{
    MachineParts {
        reactor_threshold: uses_reactor_threshold(t),
        alarm_period_secs: alarm_period_secs(t),
        vulnerabilities: machine_vulnerabilities(t),
        life_support: provides_life_support(t),
    }
}

/// A machine with the parts it is built with.
#[derive(Debug, Clone)]
pub struct BuiltMachine {
    pub machine: Machine,
    pub parts: MachineParts,
}

/// A machine, the parts it is built with, and the index of the room it
/// stands in.
#[derive(Debug, Clone)]
pub struct MachinePlacement {
    pub room: usize,
    pub machine: Machine,
    pub parts: MachineParts,
}

/// The smaller of two numbers.
pub open spec fn min_nat(a: nat, b: nat) -> nat {
    if a < b {
        a
    } else {
        b
    }
}

/// Whether `placed` puts the `k`-th machine of the roster in the room that
/// comes `k`-th from the end of `order`, named after that room.
pub open spec fn placement_follows(
    placed: Seq<MachinePlacement>,
    order: Seq<usize>,
    room_ids: Seq<Seq<char>>,
) -> bool {
    &&& placed.len() == min_nat(machine_roster_spec().len(), order.len())
    &&& forall|k: int|
        #![trigger placed[k]]
        0 <= k < placed.len() ==> {
            let r = order[order.len() - 1 - k];
            &&& placed[k].room == r
            &&& placed[k].machine.machine_type == machine_roster_spec()[k]
            &&& placed[k].machine.id_name@ == machine_name_spec(
                room_ids[r as int],
                machine_roster_spec()[k],
            )
            &&& parts_follow(placed[k].parts, machine_roster_spec()[k])
        }
}

fn machine_name(room_id: &String, t: MachineType) -> (r: String)
    ensures
        r@ == machine_name_spec(room_id@, t),
{
    let mut r = room_id.clone();
    push_char(&mut r, '-');
    r.append(t.short_code());
    r
}

/// Places the roster's machines in rooms: the rooms are taken from the end
/// of `order`, one per machine, until either runs out.
pub fn place_machines(order: &Vec<usize>, room_ids: &Vec<String>) -> (placed: Vec<
    MachinePlacement,
>)
    requires
        forall|k: int| 0 <= k < order@.len() ==> #[trigger] order@[k] < room_ids@.len(),
    ensures
        placement_follows(placed@, order@, texts(room_ids@)),
{
    let roster = machine_roster();
    let mut placed: Vec<MachinePlacement> = Vec::new();
    let mut k: usize = 0;
    let n = order.len();
    while k < roster.len() && k < n
        invariant
            roster@ == machine_roster_spec(),
            n == order@.len(),
            k <= roster@.len(),
            k <= n,
            placed@.len() == k,
            forall|k: int| 0 <= k < order@.len() ==> #[trigger] order@[k] < room_ids@.len(),
            forall|q: int|
                #![trigger placed@[q]]
                0 <= q < k ==> {
                    let r = order@[order@.len() - 1 - q];
                    &&& placed@[q].room == r
                    &&& placed@[q].machine.machine_type == machine_roster_spec()[q]
                    &&& placed@[q].machine.id_name@ == machine_name_spec(
                        room_ids@[r as int]@,
                        machine_roster_spec()[q],
                    )
                    &&& parts_follow(placed@[q].parts, machine_roster_spec()[q])
                },
        decreases roster@.len() - k,
    {
        let r = order[n - 1 - k];
        let t = roster[k];
        let name = machine_name(&room_ids[r], t);
        let parts = machine_parts(t);
        placed.push(
            MachinePlacement { room: r, machine: Machine { id_name: name, machine_type: t }, parts },
        );
        k = k + 1;
    }
    proof {
        let ids = texts(room_ids@);
        assert forall|q: int|
            #![trigger placed@[q]]
            0 <= q < placed@.len() implies placed@[q].machine.id_name@ == machine_name_spec(
                ids[order@[order@.len() - 1 - q] as int],
                machine_roster_spec()[q],
            ) by {
            let r = order@[order@.len() - 1 - q];
            assert(r < room_ids@.len());
            assert(ids[r as int] == room_ids@[r as int]@);
        }
    }
    placed
}

/// The indices `0..n`, in order.
pub open spec fn indices(n: nat) -> Seq<usize> {
    Seq::new(n, |i: int| i as usize)
}

/// Places the roster's machines in the rooms with the given designations:
/// chance orders the rooms, and each machine goes to a room of its own,
/// taken in that order, until either runs out.
pub fn distribute_machines(room_ids: &Vec<String>, rng: &mut ThreadRng) -> (placed: Vec<
    MachinePlacement,
>)
    ensures
        exists|order: Seq<usize>|
            {
                &&& order.to_multiset() == indices(room_ids@.len()).to_multiset()
                &&& #[trigger] placement_follows(
                    placed@,
                    order,
                    texts(room_ids@),
                )
            },
        placed@.len() == min_nat(machine_roster_spec().len(), room_ids@.len()),
        forall|k: int| 0 <= k < placed@.len() ==> #[trigger] placed@[k].room < room_ids@.len(),
        forall|a: int, b: int|
            0 <= a < b < placed@.len() ==> #[trigger] placed@[a].room != #[trigger] placed@[b].room,
{
    let n = room_ids.len();
    let mut order: Vec<usize> = Vec::new();
    let mut i: usize = 0;
    while i < n
        invariant
            i <= n == room_ids@.len(),
            order@ == indices(i as nat),
        decreases n - i,
    {
        order.push(i);
        assert(order@ =~= indices((i + 1) as nat));
        i = i + 1;
    }
    let ghost before = order@;
    shuffle_indices(rng, &mut order);
    proof {
        lemma_indices_no_duplicates(n as nat);
        before.lemma_multiset_has_no_duplicates();
        order@.lemma_multiset_has_no_duplicates_conv();
        broadcast use vstd::seq_lib::group_to_multiset_ensures;
        assert forall|k: int| 0 <= k < order@.len() implies #[trigger] order@[k] < room_ids@.len() by {
            let x = order@[k];
            assert(order@.contains(x));
            assert(order@.to_multiset().count(x) > 0);
            assert(before.to_multiset().count(x) > 0);
            assert(before.contains(x));
            let w = choose|w: int| 0 <= w < before.len() && before[w] == x;
            assert(before[w] == w);
        }
    }
    let placed = place_machines(&order, room_ids);
    proof {
        assert forall|a: int, b: int|
            0 <= a < b < placed@.len() implies #[trigger] placed@[a].room
            != #[trigger] placed@[b].room by {
            assert(placed@[a].room == order@[order@.len() - 1 - a]);
            assert(placed@[b].room == order@[order@.len() - 1 - b]);
        }
    }
    placed
}

/// The indices `0..n` occur once each.
proof fn lemma_indices_no_duplicates(n: nat)
    requires
        n <= usize::MAX,
    ensures
        indices(n).no_duplicates(),
{
    assert forall|i: int, j: int|
        0 <= i < n && 0 <= j < n && i != j implies #[trigger] indices(n)[i] != #[trigger] indices(
        n,
    )[j] by {
        assert(indices(n)[i] == i);
        assert(indices(n)[j] == j);
    }
}

/// The kinds of machine that a room may receive on its own.
pub open spec fn room_machine_kinds_spec() -> Seq<MachineType> {
    seq![MachineType::Reactor, MachineType::LifeSupport, MachineType::Server, MachineType::Cooler]
}

/// Whether `machines` are the machines of the room `room_id` for the given
/// picks: one machine per pick, in order, the `k`-th of the kind that the
/// `k`-th pick indexes in [`room_machine_kinds_spec`], named after the room
/// and its kind, and built with the parts of that kind.
pub open spec fn machines_for_picks(
    machines: Seq<BuiltMachine>,
    room_id: Seq<char>,
    picks: Seq<u32>,
) -> bool {
    &&& machines.len() == picks.len()
    &&& forall|k: int|
        #![trigger machines[k]]
        0 <= k < machines.len() ==> {
            &&& machines[k].machine.machine_type == room_machine_kinds_spec()[picks[k] as int]
            &&& machines[k].machine.id_name@ == machine_name_spec(
                room_id,
                room_machine_kinds_spec()[picks[k] as int],
            )
            &&& parts_follow(machines[k].parts, room_machine_kinds_spec()[picks[k] as int])
        }
}

/// Whether the picks are a valid draw for a room: one to three of them,
/// each an index into [`room_machine_kinds_spec`].
pub open spec fn valid_room_picks(picks: Seq<u32>) -> bool {
    &&& 1 <= picks.len() <= 3
    &&& forall|k: int| 0 <= k < picks.len() ==> #[trigger] picks[k] < 4
}

/// The machines of a room for the given picks of kinds.
pub fn room_machines_for(room_id: &String, picks: &Vec<u32>) -> (machines: Vec<BuiltMachine>)
    requires
        valid_room_picks(picks@),
    ensures
        machines_for_picks(machines@, room_id@, picks@),
{
    let kinds = vec![
        MachineType::Reactor,
        MachineType::LifeSupport,
        MachineType::Server,
        MachineType::Cooler,
    ];
    assert(kinds@ == room_machine_kinds_spec());
    let mut machines: Vec<BuiltMachine> = Vec::new();
    let mut k: usize = 0;
    while k < picks.len()
        invariant
            k <= picks@.len(),
            valid_room_picks(picks@),
            kinds@ == room_machine_kinds_spec(),
            machines_for_picks(machines@, room_id@, picks@.take(k as int)),
        decreases picks@.len() - k,
    {
        let pick = picks[k];
        assert(pick < 4);
        let t = kinds[pick as usize];
        let name = machine_name(room_id, t);
        let ghost before = machines@;
        let parts = machine_parts(t);
        machines.push(BuiltMachine { machine: Machine { id_name: name, machine_type: t }, parts });
        assert(machines_for_picks(machines@, room_id@, picks@.take(k + 1))) by {
            assert forall|q: int| 0 <= q < k + 1 implies picks@.take(k + 1)[q] == picks@[q] by {}
            assert forall|q: int| 0 <= q < k implies #[trigger] machines@[q] == before[q] && picks@.take(
                k as int,
            )[q] == picks@[q] by {}
        }
        k = k + 1;
    }
    assert(picks@.take(picks@.len() as int) == picks@);
    machines
}

/// One to three machines for a room with the given designation: chance
/// draws how many and, for each, which of the four kinds it is.
pub fn random_room_machines(room_id: &String, rng: &mut ThreadRng) -> (machines: Vec<
    BuiltMachine,
>)
    ensures
        exists|picks: Seq<u32>|
            valid_room_picks(picks) && #[trigger] machines_for_picks(machines@, room_id@, picks),
{
    let count = random_in(rng, 1, 4);
    let mut picks: Vec<u32> = Vec::new();
    let mut k: u32 = 0;
    while k < count
        invariant
            1 <= count <= 3,
            k <= count,
            picks@.len() == k,
            forall|q: int| 0 <= q < picks@.len() ==> #[trigger] picks@[q] < 4,
        decreases count - k,
    {
        let pick = random_in(rng, 0, 4);
        picks.push(pick);
        k = k + 1;
    }
    let machines = room_machines_for(room_id, &picks);
    assert(valid_room_picks(picks@) && machines_for_picks(machines@, room_id@, picks@));
    machines
}

/// The vulnerabilities that a machine of the given kind is built with: a
/// reactor can breach the hull; life support can short the power; others
/// can short the power or jam a door.
pub open spec fn vulnerabilities_spec(t: MachineType) -> Seq<VulnerabilityType> {
    match t {
        MachineType::Reactor => seq![VulnerabilityType::HullBreach],
        MachineType::LifeSupport => seq![VulnerabilityType::PowerShortage],
        _ => seq![VulnerabilityType::PowerShortage, VulnerabilityType::DoorMalfunction],
    }
}

/// The vulnerabilities of a machine of the given kind.
pub fn machine_vulnerabilities(t: MachineType) -> (v: Vulnerabilities)
    ensures
        v.0@ == vulnerabilities_spec(t),
{
    match t {
        MachineType::Reactor => Vulnerabilities(vec![VulnerabilityType::HullBreach]),
        MachineType::LifeSupport => Vulnerabilities(vec![VulnerabilityType::PowerShortage]),
        _ => Vulnerabilities(
            vec![VulnerabilityType::PowerShortage, VulnerabilityType::DoorMalfunction],
        ),
    }
}

/// How many seconds the overheat alarm of a machine of the given kind
/// takes between checks: 5 for a reactor, 3 for life support, 4 otherwise.
pub open spec fn alarm_period_spec(t: MachineType) -> u32 {
    match t {
        MachineType::Reactor => 5,
        MachineType::LifeSupport => 3,
        _ => 4,
    }
}

/// The alarm period of a machine of the given kind, in seconds.
pub fn alarm_period_secs(t: MachineType) -> (s: u32)
    ensures
        s == alarm_period_spec(t),
{
    match t {
        MachineType::Reactor => 5,
        MachineType::LifeSupport => 3,
        _ => 4,
    }
}

/// Whether a machine of the given kind overheats at the reactor's critical
/// temperature; all others overheat at the common one.
pub fn uses_reactor_threshold(t: MachineType) -> (b: bool)
    ensures
        b == (t == MachineType::Reactor),
{
    match t {
        MachineType::Reactor => true,
        _ => false,
    }
}

/// Whether a machine of the given kind produces oxygen.
pub fn provides_life_support(t: MachineType) -> (b: bool)
    ensures
        b == (t == MachineType::LifeSupport),
{
    match t {
        MachineType::LifeSupport => true,
        _ => false,
    }
}

} // verus!
