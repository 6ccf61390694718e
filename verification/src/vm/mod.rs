//! The Forth machine: stacks, dictionary, memory, interpreter and built-in words.

pub mod agent_laws;
pub mod base;
pub mod bridge;
pub mod checks;
pub mod compile;
pub mod dispatch;
pub mod evolve;
pub mod family;
pub mod goal_word_laws;
pub mod goal_words;
pub mod host;
pub mod keep;
pub mod laws;
pub mod line_laws;
pub mod machine;
pub mod name_laws;
pub mod net;
pub mod ops;
pub mod run;
pub mod sandbox;
pub mod state;
pub mod table;
pub mod ticks;
pub mod trials;
pub mod unit_laws;
pub mod upkeep;
pub mod word_laws;
pub mod words;
pub mod work_laws;

pub use self::state::{Reply, Request, VM};
