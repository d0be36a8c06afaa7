//! The interactive parts of the tracker: the encounter view.

pub mod encounter;
pub mod vim_textarea;
pub mod session_picker;
pub mod encounter_laws;
