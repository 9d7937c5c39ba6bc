//! The command core of a modal line editor: key notation, the incremental
//! recogniser of commands, motions and text objects on a text, and the mode
//! state machine that turns commands into edit actions.

pub mod keys;
pub mod model;
pub mod motion;
pub mod parser;
pub mod text_object;
pub mod vi;
