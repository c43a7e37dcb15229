//! A grid snake game: the per-tick simulation of head, body, apple and
//! heading, with its contracts and the laws that hold of every step.

pub mod grid;
pub mod heading;
mod chance;
pub mod game;
