//! The messages that flow through the application's event and update loop.

use vstd::prelude::*;

use crate::models::creature::Creature;
use crate::models::input::TextInput;

verus! {

/// Messages that flow through the application's event/update loop.
#[derive(Clone, Debug, Eq, PartialEq)]
pub enum Action {
    Tick,
    Render,
    Resize(u16, u16),
    Suspend,
    Resume,
    Quit,
    ClearScreen,
    Error(String),
    Help,
    ClearSelection,
    MoveNext,
    MovePrevious,
    MoveFirst,
    MoveLast,
    ToggleSelection,
    OpenAddHealth,
    OpenSubtractHealth,
    OpenInitiativeInput,
    OpenNewCreatureForm,
    OpenRenameInput,
    Undo,
    Redo,
    CancelInput,
    SubmitHealthInput,
    SubmitInitiativeInput,
    SubmitRenameInput,
    SubmitNewCreatureForm,
    FocusNextNewCreatureField,
    FocusPreviousNewCreatureField,
    TextInput(TextInput),
    /// Open a saved encounter.
    LoadEncounter {
        session_dir: String,
        encounter_file: String,
        encounter_name: String,
        creatures: Vec<Creature>,
    },
}

} // verus!
