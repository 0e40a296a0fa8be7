//! A two-player game on a three-by-three board, with a rule-based computer
//! opponent at three levels.

pub mod cell;
pub mod computer_player;
pub mod controller;
pub mod random;

pub use cell::{Cell, Level};
pub use computer_player::ComputerPlayer;
pub use controller::Controller;
pub use random::{generate, generate_range};
