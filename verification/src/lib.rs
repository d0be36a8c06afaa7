//! Encounter tracking for tabletop RPG sessions: creatures ordered by
//! initiative, undoable health, initiative and name edits, input parsing,
//! and the naming rules behind saved sessions and encounters.

pub mod action;
pub mod app_state;
pub mod creature;
pub mod dnd_beyond;
pub mod storage;
pub mod text;
pub mod models;
pub mod order;
pub mod components;
