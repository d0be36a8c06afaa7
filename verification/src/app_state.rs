//! The first application state: the creature list and the table selection
//! that the arrow keys move.

use vstd::prelude::*;

use ratatui::widgets::TableState;

use crate::creature::Creatures;
use crate::models::input::{TextInput, TextKey};

verus! {

#[verifier::external_type_specification]
#[verifier::external_body]
pub struct ExTableState(TableState);

/// The selected row of a table state (`TableState::selected`).
pub uninterp spec fn table_row(state: TableState) -> Option<usize>;

/// The selected column of a table state (`TableState::selected_column`).
pub uninterp spec fn table_column(state: TableState) -> Option<usize>;

/// A state with nothing selected (`TableState::default`).
#[verifier::external_body]
fn table_state_default() -> (state: TableState)
    ensures
        table_row(state) is None,
        table_column(state) is None,
{
    TableState::default()
}

/// Selects the first row (`TableState::select_first`).
#[verifier::external_body]
fn select_first(state: &mut TableState)
    ensures
        table_row(*final(state)) == Some(0usize),
        table_column(*final(state)) == table_column(*old(state)),
{
    state.select_first()
}

/// Selects the first column (`TableState::select_first_column`).
#[verifier::external_body]
fn select_first_column(state: &mut TableState)
    ensures
        table_row(*final(state)) == table_row(*old(state)),
        table_column(*final(state)) == Some(0usize),
{
    state.select_first_column()
}

/// Selects the last row (`TableState::select_last`): the largest index, which
/// drawing brings back onto the table.
#[verifier::external_body]
fn select_last(state: &mut TableState)
    ensures
        table_row(*final(state)) == Some(usize::MAX),
        table_column(*final(state)) == table_column(*old(state)),
{
    state.select_last()
}

/// Selects the next row, the first when none is (`TableState::select_next`).
#[verifier::external_body]
fn select_next(state: &mut TableState)
    ensures
        table_row(*final(state)) == Some(
            match table_row(*old(state)) {
                Some(i) => if i == usize::MAX { i } else { (i + 1) as usize },
                None => 0usize,
            },
        ),
        table_column(*final(state)) == table_column(*old(state)),
{
    state.select_next()
}

/// Selects the previous row, the last when none is
/// (`TableState::select_previous`).
#[verifier::external_body]
fn select_previous(state: &mut TableState)
    ensures
        table_row(*final(state)) == Some(
            match table_row(*old(state)) {
                Some(i) => if i == 0 { 0usize } else { (i - 1) as usize },
                None => usize::MAX,
            },
        ),
        table_column(*final(state)) == table_column(*old(state)),
{
    state.select_previous()
}

/// Selects the next column, the first when none is
/// (`TableState::select_next_column`).
#[verifier::external_body]
fn select_next_column(state: &mut TableState)
    ensures
        table_row(*final(state)) == table_row(*old(state)),
        table_column(*final(state)) == Some(
            match table_column(*old(state)) {
                Some(i) => if i == usize::MAX { i } else { (i + 1) as usize },
                None => 0usize,
            },
        ),
{
    state.select_next_column()
}

/// Selects the previous column, the last when none is
/// (`TableState::select_previous_column`).
#[verifier::external_body]
fn select_previous_column(state: &mut TableState)
    ensures
        table_row(*final(state)) == table_row(*old(state)),
        table_column(*final(state)) == Some(
            match table_column(*old(state)) {
                Some(i) => if i == 0 { 0usize } else { (i - 1) as usize },
                None => usize::MAX,
            },
        ),
{
    state.select_previous_column()
}

/// Application.
#[derive(Debug)]
pub struct App {
    /// Should the application exit?
    pub should_quit: bool,
    /// Creature states.
    pub creatures: Creatures,
    /// Creature table state.
    pub creature_table_state: TableState,
}

impl Default for App {
    fn default() -> (app: Self)
        ensures
            !app.should_quit,
            app.creatures@.len() == 0,
            table_row(app.creature_table_state) is None,
            table_column(app.creature_table_state) is None,
    {
        App { should_quit: false, creatures: Creatures::default(), creature_table_state: table_state_default() }
    }
}

impl App {
    /// A running application with the first cell of the table selected.
    pub fn new() -> (app: Self)
        ensures
            !app.should_quit,
            app.creatures@.len() == 0,
            table_row(app.creature_table_state) == Some(0usize),
            table_column(app.creature_table_state) == Some(0usize),
    {
        let mut app = Self::default();
        select_first(&mut app.creature_table_state);
        select_first_column(&mut app.creature_table_state);
        app
    }

    /// Handles the tick event of the terminal: nothing to do.
    pub fn tick(&self) {
    }

    /// Asks the application to exit.
    pub fn quit(&mut self)
        ensures
            final(self).should_quit,
            final(self).creatures == old(self).creatures,
            final(self).creature_table_state == old(self).creature_table_state,
    {
        self.should_quit = true;
    }
}

/// What a key does: `Esc`, `q` and `Ctrl+C` quit; `j`/`Down`, `k`/`Up`
/// move between rows, `l`/`Right`, `h`/`Left` between columns, `g` and `G`
/// go to the first and last row; other keys do nothing.
pub open spec fn key_updated(old: App, new: App, key: TextInput) -> bool {
    let k = key.key;
    let row = table_row(new.creature_table_state);
    let col = table_column(new.creature_table_state);
    let old_row = table_row(old.creature_table_state);
    let old_col = table_column(old.creature_table_state);
    let quits = k == TextKey::Esc || k == TextKey::Char('q') || ((k == TextKey::Char('c') || k == TextKey::Char('C'))
        && key.ctrl && !key.alt && !key.shift);
    &&& new.creatures == old.creatures
    &&& new.should_quit == (old.should_quit || quits)
    &&& if quits {
        new.creature_table_state == old.creature_table_state
    } else if k == TextKey::Char('j') || k == TextKey::Down {
        col == old_col && row == Some(
            match old_row {
                Some(i) => if i == usize::MAX { i } else { (i + 1) as usize },
                None => 0usize,
            },
        )
    } else if k == TextKey::Char('k') || k == TextKey::Up {
        col == old_col && row == Some(
            match old_row {
                Some(i) => if i == 0 { 0usize } else { (i - 1) as usize },
                None => usize::MAX,
            },
        )
    } else if k == TextKey::Char('l') || k == TextKey::Right {
        row == old_row && col == Some(
            match old_col {
                Some(i) => if i == usize::MAX { i } else { (i + 1) as usize },
                None => 0usize,
            },
        )
    } else if k == TextKey::Char('h') || k == TextKey::Left {
        row == old_row && col == Some(
            match old_col {
                Some(i) => if i == 0 { 0usize } else { (i - 1) as usize },
                None => usize::MAX,
            },
        )
    } else if k == TextKey::Char('g') {
        col == old_col && row == Some(0usize)
    } else if k == TextKey::Char('G') {
        col == old_col && row == Some(usize::MAX)
    } else {
        new.creature_table_state == old.creature_table_state
    }
}

/// Handles a key press.
pub fn update(app: &mut App, key: TextInput)
    ensures
        key_updated(*old(app), *final(app), key),
{
    let quit_combo = match key.key {
        TextKey::Char(c) => (c == 'c' || c == 'C') && key.ctrl && !key.alt && !key.shift,
        _ => false,
    };
    match key.key {
        TextKey::Esc => app.quit(),
        TextKey::Char('q') => app.quit(),
        _ if quit_combo => app.quit(),
        TextKey::Char('j') | TextKey::Down => select_next(&mut app.creature_table_state),
        TextKey::Char('k') | TextKey::Up => select_previous(&mut app.creature_table_state),
        TextKey::Char('l') | TextKey::Right => select_next_column(&mut app.creature_table_state),
        TextKey::Char('h') | TextKey::Left => select_previous_column(&mut app.creature_table_state),
        TextKey::Char('g') => select_first(&mut app.creature_table_state),
        TextKey::Char('G') => select_last(&mut app.creature_table_state),
        _ => {},
    }
}

} // verus!
