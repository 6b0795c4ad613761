pub mod card;
pub mod display;
pub mod error;
pub mod game;
pub mod interaction;
pub mod session;
pub mod stash;
