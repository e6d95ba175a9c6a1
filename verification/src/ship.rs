//! The parts of the ship that the rules read and change: rooms, doors,
//! machines, their power and hull, and what can go wrong with them.
//!
//! Entities are named by their 64-bit identifiers.
use vstd::prelude::*;
use vstd::string::*;

verus! {

/// The phase the application is in.
#[derive(Debug, Clone, Copy, PartialEq, Eq, Hash, Structural)]
pub enum AppState {
    BootSequence,
    ActiveSimulation,
    SystemFailure,
}

impl Default for AppState {
    /// The application starts in its boot sequence.
    fn default() -> (s: AppState)
        ensures
            s == AppState::BootSequence,
    {
        AppState::BootSequence
    }
}

/// A room of the ship, known by its name.
#[derive(Debug, Clone)]
pub struct Room {
    pub name: String,
}

/// The power state of a room or machine.
#[derive(Debug, Clone, Copy, PartialEq, Eq, Structural)]
pub enum PowerState {
    Offline,
    Active,
    Overcharged,
}

/// The integrity of a hull, in whole percent. It starts at 100, loses 15
/// per breach down to 0 and is restored to 100 by a repair, so whole
/// percents hold every value it takes.
#[derive(Debug, Clone, Copy, PartialEq, Eq, Structural)]
pub struct HullIntegrity(pub u32);

/// The identifier of a node of the ship's network.
#[derive(Debug, Clone, Copy, PartialEq, Eq, Hash, Structural)]
pub struct NodeId(pub u32);

/// A door between two rooms.
#[derive(Debug, Clone)]
pub struct Door {
    pub id_name: String,
    pub is_open: bool,
    pub room_a: u64,
    pub room_b: u64,
}

/// What extreme heat can do to a machine.
#[derive(Debug, Clone, Copy, PartialEq, Eq, Structural)]
pub enum VulnerabilityType {
    PowerShortage,
    DoorMalfunction,
    HullBreach,
}

/// The ways a machine can fail under extreme heat.
#[derive(Debug, Clone)]
pub struct Vulnerabilities(pub Vec<VulnerabilityType>);

/// The kind of a machine.
#[derive(Debug, Clone, Copy, PartialEq, Eq, Structural)]
pub enum MachineType {
    Reactor,
    LifeSupport,
    Server,
    Cooler,
}

/// The three-letter code of a machine type.
pub open spec fn short_code_spec(t: MachineType) -> Seq<char> {
    match t {
        MachineType::Reactor => "RCT"@,
        MachineType::LifeSupport => "LFS"@,
        MachineType::Server => "SRV"@,
        MachineType::Cooler => "COL"@,
    }
}

impl MachineType {
    /// The three-letter code of the machine type, used in machine names.
    pub fn short_code(&self) -> (r: &'static str)
        ensures
            r@ == short_code_spec(*self),
    {
        match self {
            MachineType::Reactor => "RCT",
            MachineType::LifeSupport => "LFS",
            MachineType::Server => "SRV",
            MachineType::Cooler => "COL",
        }
    }
}

/// A machine, known by its name and kind.
#[derive(Debug, Clone)]
pub struct Machine {
    pub id_name: String,
    pub machine_type: MachineType,
}

/// The room that an entity stands in.
#[derive(Debug, Clone, Copy, PartialEq, Eq, Structural)]
pub struct LocatedIn(pub u64);

/// A line of text to print to the terminal.
#[derive(Debug, Clone)]
pub struct PrintToTerminal(pub String);

/// An entity whose temperature reached its critical level, and the name of
/// the room it reported.
#[derive(Debug, Clone)]
pub struct CriticalTemperatureEvent {
    pub entity: u64,
    pub room_name: String,
}

/// The name of a power state, as `{:?}` writes it.
pub open spec fn power_name(p: PowerState) -> Seq<char> {
    match p {
        PowerState::Offline => "Offline"@,
        PowerState::Active => "Active"@,
        PowerState::Overcharged => "Overcharged"@,
    }
}

/// The name of a power state.
pub fn power_label(p: PowerState) -> (s: String)
    ensures
        s@ == power_name(p),
{
    match p {
        PowerState::Offline => String::from_str("Offline"),
        PowerState::Active => String::from_str("Active"),
        PowerState::Overcharged => String::from_str("Overcharged"),
    }
}

} // verus!
