//! Flock: the ship-monitoring terminal and the rules of its simulated ship.
//!
//! The library holds the logic: the command language of the terminal, the
//! line editor and scroll-back of the terminal window, the command handlers
//! that act on the ship, the resolution of thermal disasters and the plan by
//! which a procedurally generated ship receives its machines and names.
pub mod text;
pub mod parser;
pub mod input;
pub mod history;
pub mod search;
pub mod ship;
pub mod commands;
pub mod random;
pub mod events;
pub mod generator;
pub mod laws;
pub mod window;
