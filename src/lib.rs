//! Simulation core of a side-scrolling flight game: a body flies through a
//! field of obstacle pairs and must stay inside the gaps between them.
//!
//! Lengths are integers in thousandths of a field pixel and angles are
//! integers in millionths of a radian, so that every rule of the game can be
//! stated and checked exactly. The trigonometry that turns an angle into a
//! step vector is left to the caller, which hands the result to
//! [`game::Game::tick`] as a [`flight::Step`].

pub mod config;
pub mod obstacle;
mod rng;
pub mod flight;
pub mod collision;
pub mod game;
