//! The data the encounter tracker keeps and edits.

pub mod creature;
pub mod edit;
pub mod edit_laws;
pub mod input;
pub mod history;
