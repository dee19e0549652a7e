//! Simulation core of a grid-based town builder: the town grid, route search,
//! resident and vehicle behaviour, and the town-wide aggregates.
pub mod grid;
pub mod path;
pub mod town;
pub mod simulation;
pub mod motion;
pub mod citizen;
pub mod vehicle;
mod chance;
pub mod world;
pub mod island;
