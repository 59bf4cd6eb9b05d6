//! The rules of the game as mathematical definitions: which squares are
//! attacked, and which positions legally follow a position.

pub mod attack;
pub mod successors;
pub mod legality;
pub mod laws;
pub mod start;
pub mod soundness;
