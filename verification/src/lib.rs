//! End-of-match outcomes for a platform-fighter replay: which competitors
//! won, decided from the state of each player on the final frame.

pub mod labels;
pub mod laws;
pub mod players;
pub mod replay;
pub mod stage;
