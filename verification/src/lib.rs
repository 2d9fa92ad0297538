//! Scoring engine for a configurable bowling game.
//!
//! A [`game::Game`] takes one roll at a time, keeps the running score with the
//! spare and strike bonuses, moves through the frames and says when the game is
//! over. The frames, the rolls in a frame and the pins of each frame are set by
//! [`game::rules::Rules`].

pub mod command;
pub mod game;
pub mod text;
