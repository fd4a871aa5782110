//! Gameplay core of a typing arcade game: falling trash carries words, the
//! player types them to destroy the trash before it piles up past a line.
//!
//! The engine around it (rendering, rigid-body physics, audio, input devices)
//! is the host: it hands this library key snapshots, collision events and
//! velocities, and reads back the entity arena, the score and the combo.
//!
//! - `text`: the typing buffer's keys, prefixes and highlighting.
//! - `trash`: the kinds of trash and their power-ups.
//! - `words`: the word list, bucketed by initial letter.
//! - `timer`: repeating simulation timers.
//! - `session`: the entity arena, matching and scoring.
//! - `collision`: the rules applied to collisions.
//! - `spawner`: the play area, spawning, the difficulty ramp, the velocity clamp.
//! - `game`: one tick, its stages in order.
//! - `laws`: what holds along any run of the game.

pub mod text;
pub mod trash;
mod random;
pub mod words;
pub mod timer;
pub mod session;
pub mod collision;
pub mod spawner;
pub mod game;
pub mod laws;
