//! Reconstruction of the time players spend on games of each time control, from a
//! stream of games whose moves carry clock annotations.
pub mod clock;
pub mod game;
pub mod stats;
pub mod visitor;

pub use clock::{comment_to_duration, tc_to_tuple, Tc};
pub use game::{Game, Player, Players, Rating};
pub use stats::{classify, Bucket, TimeSpent, TimeSpents};
pub use visitor::{classify_header, GameOutcome, HeaderKey, PgnVisitor};
