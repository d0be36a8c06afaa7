//! A modal, Vim-like text area: the key map, the mode machine, and the text
//! area operations each command performs.

use vstd::prelude::*;

use ratatui_textarea::CursorMove as Cm;
use ratatui_textarea::Scrolling as Sc;

use crate::models::creature::CreatureId;
use crate::models::input::{
    delete_after, field_text, forward_of, has_selection, in_text, insert_char_at, join_lines_at, key_typed,
    newline_inserted, next_char_deleted, remove_span, split_line_at, steps_forward, strip_selection, text_field_anchor,
    selection_between, text_field_cursor, text_field_lines, text_field_redo_lines, text_field_undo_lines, text_field_yank, textarea_value, without_selection, TextField, TextInput,
    TextKey,
};
use crate::text::{chars_of, push_char};

verus! {

/// The editing mode.
#[derive(Clone, Copy, Debug, Eq, PartialEq, Structural)]
pub enum Mode {
    Normal,
    Insert,
    /// `true` replaces one character (`r`), `false` overtypes (`R`).
    Replace(bool),
    Visual,
    /// Waiting for the motion of `y`, `d` or `c`.
    Operator(char),
}

/// What a key does to the mode.
#[derive(Clone, Copy, Debug, Eq, PartialEq, Structural)]
pub enum Transition {
    Nop,
    Mode(Mode),
    /// Remember the key, to complete a two-key command such as `gg`.
    Pending(TextInput),
}

/// The state of the emulation: the mode and the last unhandled key.
#[derive(Clone, Copy, Debug, Eq, PartialEq, Structural)]
pub struct Vim {
    pub mode: Mode,
    pub pending: TextInput,
}

/// A cursor movement in a text field.
#[derive(Clone, Copy, Debug, Eq, PartialEq, Structural)]
pub enum TextMove {
    Forward,
    Back,
    Up,
    Down,
    Head,
    End,
    Top,
    Bottom,
    WordForward,
    WordEnd,
    WordBack,
    Jump(u16, u16),
}

/// A scroll of a text field.
#[derive(Clone, Copy, Debug, Eq, PartialEq, Structural)]
pub enum TextScroll {
    /// Rows down and columns right; negative amounts go the other way.
    Delta(i16, i16),
    PageDown,
    PageUp,
    HalfPageDown,
    HalfPageUp,
}

/// The command a key stands for in the normal, visual and operator modes.
#[derive(Clone, Copy, Debug, Eq, PartialEq, Structural)]
pub enum Command {
    /// Move the cursor (`h j k l w b ^ $ G gg` and the arrow keys).
    Move(TextMove),
    /// `e`: to the end of the word, and one further for an operator.
    WordEnd,
    /// `D`
    DeleteToEnd,
    /// `C`
    ChangeToEnd,
    /// `p`
    Paste,
    /// `u`
    Undo,
    /// `Ctrl+r`
    Redo,
    /// `x`, where there is a character to delete.
    DeleteChar,
    /// `i`
    Insert,
    /// `a`
    Append,
    /// `A`
    AppendEnd,
    /// `o`
    OpenBelow,
    /// `O`
    OpenAbove,
    /// `I`
    InsertHead,
    /// `J` in normal mode.
    JoinLine,
    /// `J` in visual mode.
    JoinSelection,
    /// `S` in normal mode.
    SubstituteLine,
    /// `S` in visual mode.
    SubstituteSelection,
    /// `r`
    ReplaceOnce,
    /// `R`
    Overtype,
    /// `Ctrl+e`, `Ctrl+y`, `Ctrl+d`, `Ctrl+u`, `Ctrl+f`, `Ctrl+b`.
    Scroll(TextScroll),
    /// `v` in normal mode.
    VisualChar,
    /// `V` in normal mode.
    VisualLine,
    /// `Esc`, `Ctrl+[` or `v` in visual mode.
    ExitVisual,
    /// The operator's own key again (`yy`, `dd`, `cc`): the whole line.
    SelectLine,
    /// `y`, `d` or `c` in normal mode.
    StartOperator(char),
    /// `y` in visual mode.
    YankSelection,
    /// `d` in visual mode.
    CutSelection,
    /// `c` in visual mode.
    ChangeSelection,
    /// Anything else: remembered as the pending key.
    Pend,
}

/// The key that stands for no key.
pub open spec fn no_input() -> TextInput {
    TextInput { key: TextKey::Null, ctrl: false, alt: false, shift: false }
}

/// Whether `input` is the character `c`, with Ctrl held exactly when `ctrl`.
pub open spec fn is_key(input: TextInput, c: char, ctrl: bool) -> bool {
    input.key == TextKey::Char(c) && input.ctrl == ctrl
}

/// The command `input` stands for, given the mode, the pending key, and
/// whether `x` has a character to delete. The first matching rule wins.
pub open spec fn command_for(mode: Mode, pending: TextInput, input: TextInput, x_ok: bool) -> Command {
    let k = input.key;
    let ctrl = input.ctrl;
    if k == TextKey::Char('h') || k == TextKey::Left {
        Command::Move(TextMove::Back)
    } else if k == TextKey::Char('j') || k == TextKey::Down {
        Command::Move(TextMove::Down)
    } else if k == TextKey::Char('k') || k == TextKey::Up {
        Command::Move(TextMove::Up)
    } else if k == TextKey::Char('l') || k == TextKey::Right {
        Command::Move(TextMove::Forward)
    } else if k == TextKey::Char('w') {
        Command::Move(TextMove::WordForward)
    } else if is_key(input, 'e', false) {
        Command::WordEnd
    } else if is_key(input, 'b', false) {
        Command::Move(TextMove::WordBack)
    } else if k == TextKey::Char('^') {
        Command::Move(TextMove::Head)
    } else if k == TextKey::Char('$') {
        Command::Move(TextMove::End)
    } else if k == TextKey::Char('D') {
        Command::DeleteToEnd
    } else if k == TextKey::Char('C') {
        Command::ChangeToEnd
    } else if k == TextKey::Char('p') {
        Command::Paste
    } else if is_key(input, 'u', false) {
        Command::Undo
    } else if is_key(input, 'r', true) {
        Command::Redo
    } else if k == TextKey::Char('x') && x_ok {
        Command::DeleteChar
    } else if k == TextKey::Char('i') {
        Command::Insert
    } else if k == TextKey::Char('a') {
        Command::Append
    } else if k == TextKey::Char('A') {
        Command::AppendEnd
    } else if k == TextKey::Char('o') {
        Command::OpenBelow
    } else if k == TextKey::Char('O') {
        Command::OpenAbove
    } else if k == TextKey::Char('I') {
        Command::InsertHead
    } else if is_key(input, 'J', false) && mode == Mode::Normal {
        Command::JoinLine
    } else if is_key(input, 'J', false) && mode == Mode::Visual {
        Command::JoinSelection
    } else if is_key(input, 'S', false) && mode == Mode::Normal {
        Command::SubstituteLine
    } else if is_key(input, 'S', false) && mode == Mode::Visual {
        Command::SubstituteSelection
    } else if is_key(input, 'r', false) && mode == Mode::Normal {
        Command::ReplaceOnce
    } else if is_key(input, 'R', false) && mode == Mode::Normal {
        Command::Overtype
    } else if is_key(input, 'e', true) {
        Command::Scroll(TextScroll::Delta(1i16, 0i16))
    } else if is_key(input, 'y', true) {
        Command::Scroll(TextScroll::Delta(-1i16, 0i16))
    } else if is_key(input, 'd', true) {
        Command::Scroll(TextScroll::HalfPageDown)
    } else if is_key(input, 'u', true) {
        Command::Scroll(TextScroll::HalfPageUp)
    } else if is_key(input, 'f', true) {
        Command::Scroll(TextScroll::PageDown)
    } else if is_key(input, 'b', true) {
        Command::Scroll(TextScroll::PageUp)
    } else if is_key(input, 'v', false) && mode == Mode::Normal {
        Command::VisualChar
    } else if is_key(input, 'V', false) && mode == Mode::Normal {
        Command::VisualLine
    } else if (k == TextKey::Esc || is_key(input, '[', true) || is_key(input, 'v', false)) && mode
        == Mode::Visual {
        Command::ExitVisual
    } else if is_key(input, 'g', false) && is_key(pending, 'g', false) {
        Command::Move(TextMove::Top)
    } else if is_key(input, 'G', false) {
        Command::Move(TextMove::Bottom)
    } else if k is Char && !ctrl && mode == Mode::Operator(k->Char_0) {
        Command::SelectLine
    } else if (is_key(input, 'y', false) || is_key(input, 'd', false) || is_key(input, 'c', false))
        && mode == Mode::Normal {
        Command::StartOperator(k->Char_0)
    } else if is_key(input, 'y', false) && mode == Mode::Visual {
        Command::YankSelection
    } else if is_key(input, 'd', false) && mode == Mode::Visual {
        Command::CutSelection
    } else if is_key(input, 'c', false) && mode == Mode::Visual {
        Command::ChangeSelection
    } else {
        Command::Pend
    }
}

/// The mode after a motion, when an operator was waiting for it: `y` and
/// `d` return to normal mode, `c` to insert mode.
pub open spec fn operator_result(mode: Mode) -> Transition {
    match mode {
        Mode::Operator(op) => if op == 'y' || op == 'd' {
            Transition::Mode(Mode::Normal)
        } else if op == 'c' {
            Transition::Mode(Mode::Insert)
        } else {
            Transition::Nop
        },
        _ => Transition::Nop,
    }
}

/// The transition a command causes in mode `mode`.
pub open spec fn command_result(mode: Mode, cmd: Command, input: TextInput) -> Transition {
    match cmd {
        Command::Move(_) | Command::WordEnd | Command::Scroll(_) | Command::SelectLine => operator_result(mode),
        Command::DeleteToEnd | Command::Paste | Command::Undo | Command::Redo | Command::DeleteChar
        | Command::JoinLine | Command::JoinSelection | Command::ExitVisual | Command::YankSelection
        | Command::CutSelection => Transition::Mode(Mode::Normal),
        Command::ChangeToEnd | Command::Insert | Command::Append | Command::AppendEnd | Command::OpenBelow
        | Command::OpenAbove | Command::InsertHead | Command::SubstituteLine | Command::SubstituteSelection
        | Command::ChangeSelection => Transition::Mode(Mode::Insert),
        Command::ReplaceOnce => Transition::Mode(Mode::Replace(true)),
        Command::Overtype => Transition::Mode(Mode::Replace(false)),
        Command::VisualChar | Command::VisualLine => Transition::Mode(Mode::Visual),
        Command::StartOperator(op) => Transition::Mode(Mode::Operator(op)),
        Command::Pend => Transition::Pending(input),
    }
}

/// Whether a key leaves insert mode: `Esc`, `Ctrl+c` or `Ctrl+[`.
pub open spec fn leaves_insert(input: TextInput) -> bool {
    input.key == TextKey::Esc || is_key(input, 'c', true) || is_key(input, '[', true)
}

/// Whether a key leaves replace mode: `Esc` or `Ctrl+[`.
pub open spec fn leaves_replace(input: TextInput) -> bool {
    input.key == TextKey::Esc || is_key(input, '[', true)
}

/// The transition a key causes; `x_ok` says whether `x` has a character to
/// delete.
pub open spec fn vim_step(vim: Vim, input: TextInput, x_ok: bool) -> Transition {
    if input.key == TextKey::Null {
        Transition::Nop
    } else {
        match vim.mode {
            Mode::Insert => if leaves_insert(input) {
                Transition::Mode(Mode::Normal)
            } else {
                Transition::Mode(Mode::Insert)
            },
            Mode::Replace(once) => if leaves_replace(input) || once {
                Transition::Mode(Mode::Normal)
            } else {
                Transition::Mode(Mode::Replace(false))
            },
            _ => command_result(vim.mode, command_for(vim.mode, vim.pending, input, x_ok), input),
        }
    }
}

/// The state after a transition: a new mode starts afresh, a pending key is
/// remembered, and otherwise nothing changes.
pub open spec fn after_transition(vim: Vim, t: Transition) -> Vim {
    match t {
        Transition::Mode(m) => if m != vim.mode {
            Vim { mode: m, pending: no_input() }
        } else {
            vim
        },
        Transition::Nop => vim,
        Transition::Pending(input) => Vim { pending: input, ..vim },
    }
}

/// A key that touches nothing in the text field: no key at all, a key with
/// no command, leaving insert mode, entering replace mode, or any key in
/// replace mode other than a plain character.
pub open spec fn touches_nothing(vim: Vim, input: TextInput, x_ok: bool) -> bool {
    ||| input.key == TextKey::Null
    ||| match vim.mode {
        Mode::Insert => leaves_insert(input),
        Mode::Replace(_) => !(input.key is Char && !input.ctrl && !input.alt),
        _ => {
            let cmd = command_for(vim.mode, vim.pending, input, x_ok);
            cmd == Command::Pend || cmd == Command::ReplaceOnce || cmd == Command::Overtype
        },
    }
}

/// Whether a command in mode `mode` only moves the cursor or the selection,
/// outside an operator that deletes: the lines stay as they are.
pub open spec fn command_keeps_lines(mode: Mode, cmd: Command) -> bool {
    match cmd {
        Command::Move(_) | Command::WordEnd | Command::Scroll(_) | Command::SelectLine => mode != Mode::Operator('d')
            && mode != Mode::Operator('c'),
        Command::Insert | Command::Append | Command::AppendEnd | Command::InsertHead | Command::VisualChar
        | Command::VisualLine | Command::ExitVisual | Command::StartOperator(_) | Command::YankSelection
        | Command::ReplaceOnce | Command::Overtype | Command::Pend => true,
        _ => false,
    }
}

/// A key whose command only moves the cursor or the selection, outside an
/// operator that deletes: the lines stay as they are.
pub open spec fn keeps_lines(vim: Vim, input: TextInput, x_ok: bool) -> bool {
    &&& input.key != TextKey::Null
    &&& match vim.mode {
        Mode::Insert | Mode::Replace(_) => false,
        _ => command_keeps_lines(vim.mode, command_for(vim.mode, vim.pending, input, x_ok)),
    }
}

/// The lines after the selection from `anchor` to `cursor` is cut.
pub open spec fn cut_between(lines: Seq<Seq<char>>, anchor: Option<(usize, usize)>, cursor: (usize, usize)) -> Seq<
    Seq<char>,
> {
    strip_selection(lines, anchor, cursor).0
}

/// `lines` without line `r`; the only line is emptied instead.
pub open spec fn line_cut(lines: Seq<Seq<char>>, r: int) -> Seq<Seq<char>> {
    if r + 1 < lines.len() {
        lines.remove(r)
    } else {
        lines.update(r, Seq::empty())
    }
}

/// What a command does to the lines and the yank buffer of the text field, as far as it is
/// stated, for a field whose cursor and selection lie in the text. Commands
/// that only move are covered by `keeps_lines`; the operators with a word
/// motion, a vertical motion or a jump, and `J` in visual mode are not
/// stated.
pub open spec fn command_text(mode: Mode, cmd: Command, old: TextField, new: TextField) -> bool {
    let lines = text_field_lines(old);
    let p = text_field_cursor(old);
    let anchor = text_field_anchor(old);
    let after = text_field_lines(new);
    match cmd {
        // `D`, `C`: the selection, else to the end of the line.
        Command::DeleteToEnd | Command::ChangeToEnd => after == if has_selection(old) {
            without_selection(old).0
        } else {
            delete_to_end(lines, p)
        },
        // `x`: the selection, else the character at the cursor.
        Command::DeleteChar => has_selection(old) || steps_forward(lines, p) ==> after == if has_selection(old) {
            without_selection(old).0
        } else {
            delete_after(lines, p)
        },
        // `J`: the next line joins this one after a space.
        Command::JoinLine => anchor is None ==> after == if p.0 + 1 < lines.len() {
            join_lines_at(lines, p.0 as int, seq![' '])
        } else {
            lines
        },
        // `S`: the line is emptied.
        Command::SubstituteLine => anchor is None ==> after == delete_to_end(lines, (p.0, 0usize)),
        // `o`, `O`: an empty line below or above.
        Command::OpenBelow => anchor is None ==> after == split_line_at(lines, (p.0, lines[p.0 as int].len() as usize)),
        Command::OpenAbove => anchor is None ==> after == split_line_at(lines, (p.0, 0usize)),
        // `u`, Ctrl+r: the edit history's undo and redo.
        Command::Undo => after == text_field_undo_lines(old),
        Command::Redo => after == text_field_redo_lines(old),
        // `p`: the yank buffer goes in at the cursor, in place of the
        // selection.
        Command::Paste => text_field_yank(old).len() >= 1 ==> after == pasted(
            without_selection(old).0,
            without_selection(old).1,
            text_field_yank(old),
        ),
        // Visual `d`, `c`, `S`: the selection, the character under the
        // cursor included, is cut to the yank buffer.
        Command::CutSelection | Command::ChangeSelection | Command::SubstituteSelection => steps_forward(lines, p)
            ==> {
            &&& after == cut_between(lines, anchor, forward_of(lines, p))
            &&& text_field_yank(new) == yank_of(lines, anchor, forward_of(lines, p), text_field_yank(old))
        },
        // Visual `y`: the selection, the character under the cursor
        // included, is copied to the yank buffer.
        Command::YankSelection => steps_forward(lines, p) ==> text_field_yank(new) == yank_of(
            lines,
            anchor,
            forward_of(lines, p),
            text_field_yank(old),
        ),
        // `d` or `c` with `e`: the cut runs through the last character of
        // the word, that character included.
        Command::WordEnd => mode == Mode::Operator('d') || mode == Mode::Operator('c') ==> forall|k: int|
            #[trigger] word_ends_at(lines[p.0 as int], p.1 + 1, k) ==> after == cut_between(
            lines,
            anchor,
            (p.0, (k + 1) as usize),
        ),
        // `d` or `c` with a motion whose target is stated (`$`, `^`, `l`):
        // the text from where the operator began to that target is cut.
        Command::Move(m) => mode == Mode::Operator('d') || mode == Mode::Operator('c') ==> match m {
            TextMove::End => after == cut_between(lines, anchor, (p.0, lines[p.0 as int].len() as usize)),
            TextMove::Head => after == cut_between(lines, anchor, (p.0, 0usize)),
            TextMove::Forward => steps_forward(lines, p) ==> after == cut_between(lines, anchor, forward_of(lines, p)),
            _ => true,
        },
        // `yy`, `dd`, `cc`: the whole line goes to the yank buffer; `dd` and
        // `cc` also cut it.
        Command::SelectLine => {
            let target = if p.0 + 1 < lines.len() {
                ((p.0 + 1) as usize, 0usize)
            } else {
                (p.0, lines[p.0 as int].len() as usize)
            };
            &&& mode == Mode::Operator('d') || mode == Mode::Operator('c') ==> after == line_cut(lines, p.0 as int)
            &&& mode == Mode::Operator('y') || mode == Mode::Operator('d') || mode == Mode::Operator('c')
                ==> text_field_yank(new) == yank_of(lines, Some((p.0, 0usize)), target, text_field_yank(old))
        },
        _ => true,
    }
}

/// What a key does to the lines of the text field, as far as it is stated,
/// for a field whose cursor and selection lie in the text: in replace mode a
/// plain character overwrites the one at the cursor (or is added at the end
/// of the line); in the other modes see `command_text`. Typing in insert mode
/// is described by `key_typed`.
pub open spec fn vim_text(vim: Vim, input: TextInput, x_ok: bool, old: TextField, new: TextField) -> bool {
    let lines = text_field_lines(old);
    let p = text_field_cursor(old);
    if input.key == TextKey::Null {
        true
    } else {
        match vim.mode {
            Mode::Insert => true,
            Mode::Replace(_) => match input.key {
                TextKey::Char(c) => if input.ctrl || input.alt {
                    true
                } else if !replace_allowed_at(lines, p) {
                    new == old
                } else {
                    text_field_anchor(old) is None && steps_forward(lines, p) && c != '\n' && c != '\r' ==> text_field_lines(new)
                        == insert_char_at(delete_after(lines, p), p, c)
                },
                _ => true,
            },
            _ => command_text(vim.mode, command_for(vim.mode, vim.pending, input, x_ok), old, new),
        }
    }
}

/// The number of bytes of the UTF-8 encoding of `c`.
pub open spec fn utf8_width(c: char) -> int {
    if (c as u32) < 0x80 {
        1
    } else if (c as u32) < 0x800 {
        2
    } else if (c as u32) < 0x10000 {
        3
    } else {
        4
    }
}

/// The number of bytes of the UTF-8 encoding of `s`: the `len` of a string
/// holding these characters.
pub open spec fn utf8_len(s: Seq<char>) -> int
    decreases s.len(),
{
    if s.len() == 0 {
        0
    } else {
        utf8_len(s.drop_last()) + utf8_width(s.last())
    }
}

/// The cursor stands before the last byte of its line (its column, counted
/// in characters, is compared with the line's length in bytes).
pub open spec fn before_line_end(lines: Seq<Seq<char>>, cursor: (usize, usize)) -> bool {
    cursor.0 < lines.len() && cursor.1 + 1 < utf8_len(lines[cursor.0 as int])
}

/// Whether `x` deletes: the cursor is before the end of its line, or the
/// line is empty.
pub open spec fn x_allowed(lines: Seq<Seq<char>>, cursor: (usize, usize)) -> bool {
    before_line_end(lines, cursor) || (cursor.0 < lines.len() && lines[cursor.0 as int].len() == 0)
}

impl TextField {
    /// Moves the cursor (`TextArea::move_cursor`); the lines and the start
    /// of the selection do not change, and the cursor stays in the text. Within the text: a step forward goes
    /// one character on (see `steps_forward`), the head and the end of the
    /// line are column zero and the line's length, and from column zero a
    /// line down or up keeps column zero. Other moves are not stated.
    #[verifier::external_body]
    pub(crate) fn move_cursor(&mut self, m: TextMove)
        ensures
            text_field_lines(*final(self)) == text_field_lines(*old(self)),
            text_field_anchor(*final(self)) == text_field_anchor(*old(self)),
            in_text(*old(self)) ==> moved_to(*old(self), *final(self), m),
            in_text(*old(self)) ==> in_text(*final(self)),
            text_field_yank(*final(self)) == text_field_yank(*old(self)),
    {
        let m = match m {
            TextMove::Forward => Cm::Forward,
            TextMove::Back => Cm::Back,
            TextMove::Up => Cm::Up,
            TextMove::Down => Cm::Down,
            TextMove::Head => Cm::Head,
            TextMove::End => Cm::End,
            TextMove::Top => Cm::Top,
            TextMove::Bottom => Cm::Bottom,
            TextMove::WordForward => Cm::WordForward,
            TextMove::WordEnd => Cm::WordEnd,
            TextMove::WordBack => Cm::WordBack,
            TextMove::Jump(row, col) => Cm::Jump(row, col),
        };
        self.textarea.move_cursor(m)
    }

    /// Scrolls (`TextArea::scroll`), moving the cursor into view; the lines
    /// do not change.
    #[verifier::external_body]
    pub(crate) fn scroll(&mut self, s: TextScroll)
        ensures
            text_field_lines(*final(self)) == text_field_lines(*old(self)),
    {
        let s = match s {
            TextScroll::Delta(rows, cols) => Sc::Delta { rows, cols },
            TextScroll::PageDown => Sc::PageDown,
            TextScroll::PageUp => Sc::PageUp,
            TextScroll::HalfPageDown => Sc::HalfPageDown,
            TextScroll::HalfPageUp => Sc::HalfPageUp,
        };
        self.textarea.scroll(s)
    }

    /// Starts a selection at the cursor (`TextArea::start_selection`); the
    /// lines and the cursor do not change.
    #[verifier::external_body]
    pub(crate) fn start_selection(&mut self)
        ensures
            text_field_lines(*final(self)) == text_field_lines(*old(self)),
            text_field_cursor(*final(self)) == text_field_cursor(*old(self)),
            text_field_anchor(*final(self)) == Some(text_field_cursor(*old(self))),
            in_text(*old(self)) ==> in_text(*final(self)),
            text_field_yank(*final(self)) == text_field_yank(*old(self)),
    {
        self.textarea.start_selection()
    }

    /// Stops selecting (`TextArea::cancel_selection`); the lines and the
    /// cursor do not change.
    #[verifier::external_body]
    pub(crate) fn cancel_selection(&mut self)
        ensures
            text_field_lines(*final(self)) == text_field_lines(*old(self)),
            text_field_cursor(*final(self)) == text_field_cursor(*old(self)),
            text_field_anchor(*final(self)) is None,
            in_text(*old(self)) ==> in_text(*final(self)),
            text_field_yank(*final(self)) == text_field_yank(*old(self)),
    {
        self.textarea.cancel_selection()
    }

    /// Copies the selection to the yank buffer and ends it (`TextArea::copy`);
    /// the lines and the cursor do not change. With nothing selected the
    /// yank buffer stays as it was.
    #[verifier::external_body]
    pub(crate) fn copy(&mut self)
        ensures
            text_field_lines(*final(self)) == text_field_lines(*old(self)),
            text_field_cursor(*final(self)) == text_field_cursor(*old(self)),
            text_field_anchor(*final(self)) is None,
            in_text(*old(self)) ==> in_text(*final(self)),
            in_text(*old(self)) ==> text_field_yank(*final(self)) == yanked(*old(self)),
    {
        self.textarea.copy()
    }

    /// Cuts the selection (`TextArea::cut`): within the text, the selected
    /// text goes to the yank buffer and the cursor moves to where it began.
    #[verifier::external_body]
    pub(crate) fn cut(&mut self) -> (modified: bool)
        ensures
            in_text(*old(self)) ==> in_text(*final(self)),
            in_text(*old(self)) ==> {
                &&& (text_field_lines(*final(self)), text_field_cursor(*final(self))) == without_selection(*old(self))
                &&& text_field_anchor(*final(self)) is None
                &&& modified == has_selection(*old(self))
                &&& text_field_yank(*final(self)) == yanked(*old(self))
            },
    {
        self.textarea.cut()
    }

    /// Deletes the selection and inserts the yank buffer where it was
    /// (`TextArea::paste`); the yank buffer stays.
    #[verifier::external_body]
    pub(crate) fn paste(&mut self) -> (modified: bool)
        ensures
            text_field_yank(*final(self)) == text_field_yank(*old(self)),
            in_text(*old(self)) && text_field_yank(*old(self)).len() >= 1 ==> text_field_lines(*final(self))
                == pasted(without_selection(*old(self)).0, without_selection(*old(self)).1, text_field_yank(*old(self))),
    {
        self.textarea.paste()
    }

    /// Undoes the last change of the text (`TextArea::undo`): the lines
    /// become those the edit history gives back, named
    /// `text_field_undo_lines`; with nothing to undo they stay as they were.
    #[verifier::external_body]
    pub(crate) fn undo(&mut self) -> (modified: bool)
        ensures
            text_field_lines(*final(self)) == text_field_undo_lines(*old(self)),
            !modified ==> text_field_lines(*final(self)) == text_field_lines(*old(self)),
    {
        self.textarea.undo()
    }

    /// Redoes the last undone change (`TextArea::redo`): the lines become
    /// those the edit history gives, named `text_field_redo_lines`; with
    /// nothing to redo they stay as they were.
    #[verifier::external_body]
    pub(crate) fn redo(&mut self) -> (modified: bool)
        ensures
            text_field_lines(*final(self)) == text_field_redo_lines(*old(self)),
            !modified ==> text_field_lines(*final(self)) == text_field_lines(*old(self)),
    {
        self.textarea.redo()
    }

    /// Deletes the selection, or else from the cursor to the end of the line,
    /// or else (at the end of the line) the line break after it
    /// (`TextArea::delete_line_by_end`). Only the text up to the end of the
    /// line goes to the yank buffer.
    #[verifier::external_body]
    pub(crate) fn delete_line_by_end(&mut self) -> (modified: bool)
        ensures
            in_text(*old(self)) ==> in_text(*final(self)),
            in_text(*old(self)) ==> {
                &&& (text_field_lines(*final(self)), text_field_cursor(*final(self))) == if has_selection(*old(self)) {
                    without_selection(*old(self))
                } else {
                    (
                        delete_to_end(text_field_lines(*old(self)), text_field_cursor(*old(self))),
                        text_field_cursor(*old(self)),
                    )
                }
                &&& text_field_anchor(*final(self)) is None
                &&& text_field_yank(*final(self)) == if !has_selection(*old(self)) && text_field_cursor(*old(self)).1
                    < text_field_lines(*old(self))[text_field_cursor(*old(self)).0 as int].len() {
                    seq![
                        text_field_lines(*old(self))[text_field_cursor(*old(self)).0 as int].skip(
                            text_field_cursor(*old(self)).1 as int,
                        ),
                    ]
                } else {
                    text_field_yank(*old(self))
                }
            },
    {
        self.textarea.delete_line_by_end()
    }

    /// Deletes the selection, or else the character at the cursor, or else
    /// (at the end of the line) the line break after it
    /// (`TextArea::delete_next_char`). Before a character drawn zero cells
    /// wide this is not stated.
    #[verifier::external_body]
    pub(crate) fn delete_next_char(&mut self) -> (modified: bool)
        ensures
            in_text(*old(self)) ==> in_text(*final(self)),
            text_field_yank(*final(self)) == text_field_yank(*old(self)),
            in_text(*old(self)) && (has_selection(*old(self)) || steps_forward(
                text_field_lines(*old(self)),
                text_field_cursor(*old(self)),
            )) ==> next_char_deleted(*old(self), *final(self)),
    {
        self.textarea.delete_next_char()
    }

    /// Deletes the selection and breaks the line where it was
    /// (`TextArea::insert_newline`).
    #[verifier::external_body]
    pub(crate) fn insert_newline(&mut self)
        ensures
            in_text(*old(self)) ==> in_text(*final(self)),
            text_field_yank(*final(self)) == text_field_yank(*old(self)),
            in_text(*old(self)) ==> newline_inserted(*old(self), *final(self)),
    {
        self.textarea.insert_newline()
    }

    /// Deletes the selection and inserts `c` where it was, the cursor after
    /// it (`TextArea::insert_char`); a line break character breaks the line.
    #[verifier::external_body]
    pub(crate) fn insert_char(&mut self, c: char)
        ensures
            in_text(*old(self)) ==> in_text(*final(self)),
            text_field_yank(*final(self)) == text_field_yank(*old(self)),
            in_text(*old(self)) ==> if c == '\n' || c == '\r' {
                newline_inserted(*old(self), *final(self))
            } else {
                char_inserted(*old(self), *final(self), c)
            },
    {
        self.textarea.insert_char(c)
    }
}

/// A character of a word: an ASCII letter or digit, or `_` (the text area
/// puts these in one class, apart from spaces and punctuation).
pub open spec fn word_char(c: char) -> bool {
    ('a' <= c && c <= 'z') || ('A' <= c && c <= 'Z') || ('0' <= c && c <= '9') || c == '_'
}

/// The columns `from..=k` of `line` are a run of word characters that ends
/// at `k`: the line ends after it or a space follows.
pub open spec fn word_ends_at(line: Seq<char>, from: int, k: int) -> bool {
    &&& 0 <= from <= k < line.len()
    &&& forall|j: int| from <= j <= k ==> word_char(#[trigger] line[j])
    &&& k + 1 == line.len() || line[k + 1] == ' '
}

/// Where a move puts the cursor, as far as it is stated. A move to the end
/// of a word goes, from the character after the cursor, to the last
/// character of the run of word characters there.
pub open spec fn moved_to(old: TextField, new: TextField, m: TextMove) -> bool {
    let lines = text_field_lines(old);
    let p = text_field_cursor(old);
    let q = text_field_cursor(new);
    match m {
        TextMove::Forward => steps_forward(lines, p) ==> q == forward_of(lines, p),
        TextMove::WordEnd => forall|k: int| #[trigger] word_ends_at(lines[p.0 as int], p.1 + 1, k) ==> q == (p.0, k as usize),
        TextMove::Head => q == (p.0, 0usize),
        TextMove::End => q == (p.0, lines[p.0 as int].len() as usize),
        TextMove::Down => p.1 == 0 ==> q == if p.0 + 1 < lines.len() {
            ((p.0 + 1) as usize, 0usize)
        } else {
            p
        },
        TextMove::Up => p.1 == 0 ==> q == if p.0 > 0 {
            ((p.0 - 1) as usize, 0usize)
        } else {
            p
        },
        _ => true,
    }
}

/// The text from `s` up to `e` (`s` before `e`), as lines.
pub open spec fn text_between(lines: Seq<Seq<char>>, s: (usize, usize), e: (usize, usize)) -> Seq<Seq<char>> {
    if s.0 == e.0 {
        seq![lines[s.0 as int].subrange(s.1 as int, e.1 as int)]
    } else {
        seq![lines[s.0 as int].skip(s.1 as int)] + lines.subrange(s.0 + 1, e.0 as int) + seq![
            lines[e.0 as int].take(e.1 as int),
        ]
    }
}

/// The yank buffer once the selection from `anchor` to `cursor` is cut or
/// copied: the selected text, or the old buffer `yank` when nothing is
/// selected.
pub open spec fn yank_of(lines: Seq<Seq<char>>, anchor: Option<(usize, usize)>, cursor: (usize, usize), yank: Seq<
    Seq<char>,
>) -> Seq<Seq<char>> {
    match selection_between(anchor, cursor) {
        Some((s, e)) => if s == e {
            yank
        } else {
            text_between(lines, s, e)
        },
        None => yank,
    }
}

/// The yank buffer once the selection of `field` is cut or copied.
pub open spec fn yanked(field: TextField) -> Seq<Seq<char>> {
    yank_of(text_field_lines(field), text_field_anchor(field), text_field_cursor(field), text_field_yank(field))
}

/// `lines` with the text `y` (at least one line) inserted at `p`.
pub open spec fn pasted(lines: Seq<Seq<char>>, p: (usize, usize), y: Seq<Seq<char>>) -> Seq<Seq<char>> {
    let line = lines[p.0 as int];
    if y.len() == 1 {
        lines.update(p.0 as int, line.take(p.1 as int) + y[0] + line.skip(p.1 as int))
    } else {
        lines.take(p.0 as int) + seq![line.take(p.1 as int) + y[0]] + y.subrange(1, y.len() - 1) + seq![
            y.last() + line.skip(p.1 as int),
        ] + lines.skip(p.0 + 1)
    }
}

/// The lines after deleting from `p` to the end of its line; at the end of
/// the line, the line break after it.
pub open spec fn delete_to_end(lines: Seq<Seq<char>>, p: (usize, usize)) -> Seq<Seq<char>> {
    if p.1 < lines[p.0 as int].len() {
        lines.update(p.0 as int, lines[p.0 as int].take(p.1 as int))
    } else {
        delete_after(lines, p)
    }
}

/// `new` is `old` after its selection is deleted and `c` is inserted where
/// it was, the cursor after it.
pub open spec fn char_inserted(old: TextField, new: TextField, c: char) -> bool {
    let (lines, p) = without_selection(old);
    &&& text_field_lines(new) == insert_char_at(lines, p, c)
    &&& text_field_cursor(new) == (p.0, (p.1 + 1) as usize)
    &&& text_field_anchor(new) is None
}

/// Whether the UTF-8 encoding of `line` is longer than `k` bytes.
fn utf8_len_exceeds(line: &Vec<char>, k: u128) -> (r: bool)
    requires
        k <= u64::MAX + 1,
    ensures
        r == (utf8_len(line@) > k),
{
    let mut sum: u128 = 0;
    let mut i: usize = 0;
    while i < line.len()
        invariant
            i <= line.len(),
            sum == utf8_len(line@.take(i as int)),
            sum <= k,
            k <= u64::MAX + 1,
        decreases line.len() - i,
    {
        assert(line@.take(i + 1).drop_last() =~= line@.take(i as int));
        let c = line[i];
        #[verifier::truncate]
        let v = c as u32;
        let w: u128 = if v < 0x80 {
            1
        } else if v < 0x800 {
            2
        } else if v < 0x10000 {
            3
        } else {
            4
        };
        assert(w == utf8_width(c));
        sum = sum + w;
        i = i + 1;
        if sum > k {
            proof {
                lemma_utf8_len_grows(line@, i as int);
            }
            return true;
        }
    }
    assert(line@.take(i as int) =~= line@);
    false
}

proof fn lemma_utf8_len_grows(s: Seq<char>, i: int)
    requires
        0 <= i <= s.len(),
    ensures
        utf8_len(s.take(i)) <= utf8_len(s),
    decreases s.len() - i,
{
    if i < s.len() {
        lemma_utf8_len_grows(s, i + 1);
        assert(s.take(i + 1).drop_last() =~= s.take(i));
    } else {
        assert(s.take(i) =~= s);
    }
}

/// The characters of line `row`, if there is such a line.
fn line_at(field: &TextField, row: usize) -> (line: Option<Vec<char>>)
    ensures
        match line {
            Some(v) => row < text_field_lines(*field).len() && v@ == text_field_lines(*field)[row as int],
            None => row >= text_field_lines(*field).len(),
        },
{
    let lines = field.lines();
    let ghost ls = lines@.map_values(|line: String| line@);
    if row < lines.len() {
        assert(ls[row as int] == lines@[row as int]@);
        Some(chars_of(lines[row].as_str()))
    } else {
        None
    }
}

/// Whether the cursor stands before the last byte of its line.
fn is_before_line_end(field: &TextField) -> (r: bool)
    ensures
        r == before_line_end(text_field_lines(*field), text_field_cursor(*field)),
{
    let cursor = field.cursor();
    match line_at(field, cursor.0) {
        Some(line) => utf8_len_exceeds(&line, cursor.1 as u128 + 1),
        None => false,
    }
}

/// Whether `x` has a character to delete.
fn x_deletes(field: &TextField) -> (r: bool)
    ensures
        r == x_allowed(text_field_lines(*field), text_field_cursor(*field)),
{
    if is_before_line_end(field) {
        return true;
    }
    let cursor = field.cursor();
    match line_at(field, cursor.0) {
        Some(line) => line.len() == 0,
        None => false,
    }
}

/// Whether the replace modes write at the cursor: it is before the last byte
/// of its line, or its column equals the line's length in bytes.
pub open spec fn replace_allowed_at(lines: Seq<Seq<char>>, cursor: (usize, usize)) -> bool {
    before_line_end(lines, cursor) || (cursor.0 < lines.len() && utf8_len(lines[cursor.0 as int]) == cursor.1)
}

proof fn lemma_utf8_len_empty(s: Seq<char>)
    ensures
        utf8_len(s) >= s.len(),
        (utf8_len(s) == 0) == (s.len() == 0),
    decreases s.len(),
{
    if s.len() > 0 {
        lemma_utf8_len_empty(s.drop_last());
    }
}

/// Whether the replace modes write at the cursor.
fn replace_allowed(field: &TextField) -> (r: bool)
    ensures
        r == replace_allowed_at(text_field_lines(*field), text_field_cursor(*field)),
{
    if is_before_line_end(field) {
        return true;
    }
    let cursor = field.cursor();
    match line_at(field, cursor.0) {
        Some(line) => {
            let k = cursor.1 as u128;
            proof {
                lemma_utf8_len_empty(line@);
            }
            !utf8_len_exceeds(&line, k) && (if k == 0 {
                line.len() == 0
            } else {
                utf8_len_exceeds(&line, k - 1)
            })
        },
        None => false,
    }
}

impl Vim {
    /// A fresh state in `mode`, with no pending key.
    pub fn new(mode: Mode) -> (vim: Self)
        ensures
            vim == (Vim { mode, pending: no_input() }),
    {
        Vim { mode, pending: TextInput { key: TextKey::Null, ctrl: false, alt: false, shift: false } }
    }

    /// The same mode, remembering `pending`.
    pub fn with_pending(self, pending: TextInput) -> (vim: Self)
        ensures
            vim == (Vim { pending, ..self }),
    {
        Vim { mode: self.mode, pending }
    }

    /// The command `input` stands for in this state.
    pub fn command(&self, input: TextInput, x_ok: bool) -> (cmd: Command)
        ensures
            cmd == command_for(self.mode, self.pending, input, x_ok),
    {
        let mode = self.mode;
        let ctrl = input.ctrl;
        let c = match input.key {
            TextKey::Left => return Command::Move(TextMove::Back),
            TextKey::Down => return Command::Move(TextMove::Down),
            TextKey::Up => return Command::Move(TextMove::Up),
            TextKey::Right => return Command::Move(TextMove::Forward),
            TextKey::Esc => return if mode == Mode::Visual {
                Command::ExitVisual
            } else {
                Command::Pend
            },
            TextKey::Char(c) => c,
            _ => return Command::Pend,
        };
        let g_pending = match self.pending.key {
            TextKey::Char(p) => p == 'g' && !self.pending.ctrl,
            _ => false,
        };
        if c == 'h' {
            Command::Move(TextMove::Back)
        } else if c == 'j' {
            Command::Move(TextMove::Down)
        } else if c == 'k' {
            Command::Move(TextMove::Up)
        } else if c == 'l' {
            Command::Move(TextMove::Forward)
        } else if c == 'w' {
            Command::Move(TextMove::WordForward)
        } else if c == 'e' && !ctrl {
            Command::WordEnd
        } else if c == 'b' && !ctrl {
            Command::Move(TextMove::WordBack)
        } else if c == '^' {
            Command::Move(TextMove::Head)
        } else if c == '$' {
            Command::Move(TextMove::End)
        } else if c == 'D' {
            Command::DeleteToEnd
        } else if c == 'C' {
            Command::ChangeToEnd
        } else if c == 'p' {
            Command::Paste
        } else if c == 'u' && !ctrl {
            Command::Undo
        } else if c == 'r' && ctrl {
            Command::Redo
        } else if c == 'x' && x_ok {
            Command::DeleteChar
        } else if c == 'i' {
            Command::Insert
        } else if c == 'a' {
            Command::Append
        } else if c == 'A' {
            Command::AppendEnd
        } else if c == 'o' {
            Command::OpenBelow
        } else if c == 'O' {
            Command::OpenAbove
        } else if c == 'I' {
            Command::InsertHead
        } else if c == 'J' && !ctrl && mode == Mode::Normal {
            Command::JoinLine
        } else if c == 'J' && !ctrl && mode == Mode::Visual {
            Command::JoinSelection
        } else if c == 'S' && !ctrl && mode == Mode::Normal {
            Command::SubstituteLine
        } else if c == 'S' && !ctrl && mode == Mode::Visual {
            Command::SubstituteSelection
        } else if c == 'r' && !ctrl && mode == Mode::Normal {
            Command::ReplaceOnce
        } else if c == 'R' && !ctrl && mode == Mode::Normal {
            Command::Overtype
        } else if c == 'e' && ctrl {
            Command::Scroll(TextScroll::Delta(1, 0))
        } else if c == 'y' && ctrl {
            Command::Scroll(TextScroll::Delta(-1, 0))
        } else if c == 'd' && ctrl {
            Command::Scroll(TextScroll::HalfPageDown)
        } else if c == 'u' && ctrl {
            Command::Scroll(TextScroll::HalfPageUp)
        } else if c == 'f' && ctrl {
            Command::Scroll(TextScroll::PageDown)
        } else if c == 'b' && ctrl {
            Command::Scroll(TextScroll::PageUp)
        } else if c == 'v' && !ctrl && mode == Mode::Normal {
            Command::VisualChar
        } else if c == 'V' && !ctrl && mode == Mode::Normal {
            Command::VisualLine
        } else if ((c == '[' && ctrl) || (c == 'v' && !ctrl)) && mode == Mode::Visual {
            Command::ExitVisual
        } else if c == 'g' && !ctrl && g_pending {
            Command::Move(TextMove::Top)
        } else if c == 'G' && !ctrl {
            Command::Move(TextMove::Bottom)
        } else if !ctrl && mode == Mode::Operator(c) {
            Command::SelectLine
        } else if (c == 'y' || c == 'd' || c == 'c') && !ctrl && mode == Mode::Normal {
            Command::StartOperator(c)
        } else if c == 'y' && !ctrl && mode == Mode::Visual {
            Command::YankSelection
        } else if c == 'd' && !ctrl && mode == Mode::Visual {
            Command::CutSelection
        } else if c == 'c' && !ctrl && mode == Mode::Visual {
            Command::ChangeSelection
        } else {
            Command::Pend
        }
    }

    /// Handles one key: performs its command on the text field and says what
    /// becomes of the mode.
    pub fn transition(&self, input: TextInput, textarea: &mut TextField) -> (t: Transition)
        ensures
            t == vim_step(*self, input, x_allowed(text_field_lines(*old(textarea)), text_field_cursor(*old(textarea)))),
            touches_nothing(*self, input, x_allowed(text_field_lines(*old(textarea)), text_field_cursor(*old(textarea))))
                ==> *final(textarea) == *old(textarea),
            keeps_lines(*self, input, x_allowed(text_field_lines(*old(textarea)), text_field_cursor(*old(textarea))))
                ==> text_field_lines(*final(textarea)) == text_field_lines(*old(textarea)),
            self.mode == Mode::Insert && input.key != TextKey::Null && !leaves_insert(input) ==> key_typed(
                *old(textarea),
                *final(textarea),
                input,
            ),
            in_text(*old(textarea)) ==> vim_text(
                *self,
                input,
                x_allowed(text_field_lines(*old(textarea)), text_field_cursor(*old(textarea))),
                *old(textarea),
                *final(textarea),
            ),
    {
        if input.key == TextKey::Null {
            return Transition::Nop;
        }
        match self.mode {
            Mode::Insert => {
                let leaves = match input.key {
                    TextKey::Esc => true,
                    TextKey::Char(c) => (c == 'c' || c == '[') && input.ctrl,
                    _ => false,
                };
                if leaves {
                    return Transition::Mode(Mode::Normal);
                }
                textarea.input(input);
                return Transition::Mode(Mode::Insert);
            },
            Mode::Replace(once) => {
                let next = if once {
                    Mode::Normal
                } else {
                    Mode::Replace(false)
                };
                match input.key {
                    TextKey::Esc => return Transition::Mode(Mode::Normal),
                    TextKey::Char(c) => {
                        if c == '[' && input.ctrl {
                            return Transition::Mode(Mode::Normal);
                        }
                        if !input.ctrl && !input.alt {
                            if replace_allowed(textarea) {
                                textarea.delete_next_char();
                                textarea.insert_char(c);
                            }
                        }
                        return Transition::Mode(next);
                    },
                    _ => return Transition::Mode(next),
                }
            },
            _ => {},
        }
        let ghost x_ok = x_allowed(text_field_lines(*textarea), text_field_cursor(*textarea));
        let is_x = match input.key {
            TextKey::Char(c) => c == 'x',
            _ => false,
        };
        let x_now = if is_x {
            x_deletes(textarea)
        } else {
            false
        };
        let cmd = self.command(input, x_now);
        assert(cmd == command_for(self.mode, self.pending, input, x_ok));
        self.run_command(cmd, input, textarea)
    }

    /// Performs command `cmd` in the normal, visual or operator mode.
    fn run_command(&self, cmd: Command, input: TextInput, textarea: &mut TextField) -> (t: Transition)
        requires
            !(self.mode is Insert) && !(self.mode is Replace),
        ensures
            t == command_result(self.mode, cmd, input),
            cmd == Command::Pend || cmd == Command::ReplaceOnce || cmd == Command::Overtype ==> *final(textarea)
                == *old(textarea),
            command_keeps_lines(self.mode, cmd) ==> text_field_lines(*final(textarea)) == text_field_lines(
                *old(textarea),
            ),
            in_text(*old(textarea)) ==> command_text(self.mode, cmd, *old(textarea), *final(textarea)),
    {
        match cmd {
            Command::Move(m) => textarea.move_cursor(m),
            Command::WordEnd => {
                textarea.move_cursor(TextMove::WordEnd);
                if let Mode::Operator(_) = self.mode {
                    textarea.move_cursor(TextMove::Forward);
                }
            },
            Command::Scroll(s) => textarea.scroll(s),
            Command::SelectLine => {
                let ghost before = *textarea;
                select_line(textarea);
                proof {
                    if in_text(before) {
                        lemma_line_cut(text_field_lines(before), text_field_cursor(before).0 as int);
                    }
                }
            },
            Command::DeleteToEnd => {
                textarea.delete_line_by_end();
                return Transition::Mode(Mode::Normal);
            },
            Command::ChangeToEnd => {
                textarea.delete_line_by_end();
                textarea.cancel_selection();
                return Transition::Mode(Mode::Insert);
            },
            Command::Paste => {
                textarea.paste();
                return Transition::Mode(Mode::Normal);
            },
            Command::Undo => {
                textarea.undo();
                return Transition::Mode(Mode::Normal);
            },
            Command::Redo => {
                textarea.redo();
                return Transition::Mode(Mode::Normal);
            },
            Command::DeleteChar => {
                textarea.delete_next_char();
                return Transition::Mode(Mode::Normal);
            },
            Command::Insert => {
                textarea.cancel_selection();
                return Transition::Mode(Mode::Insert);
            },
            Command::Append => {
                textarea.cancel_selection();
                if is_before_line_end(textarea) {
                    textarea.move_cursor(TextMove::Forward);
                }
                return Transition::Mode(Mode::Insert);
            },
            Command::AppendEnd => {
                textarea.cancel_selection();
                textarea.move_cursor(TextMove::End);
                return Transition::Mode(Mode::Insert);
            },
            Command::OpenBelow => {
                open_line(textarea, false);
                return Transition::Mode(Mode::Insert);
            },
            Command::OpenAbove => {
                open_line(textarea, true);
                return Transition::Mode(Mode::Insert);
            },
            Command::InsertHead => {
                textarea.cancel_selection();
                textarea.move_cursor(TextMove::Head);
                return Transition::Mode(Mode::Insert);
            },
            Command::JoinLine => {
                join_line(textarea);
                return Transition::Mode(Mode::Normal);
            },
            Command::JoinSelection => {
                let (start, end) = match textarea.selection_range() {
                    Some((s, e)) => (s.0, e.0),
                    None => return Transition::Mode(Mode::Normal),
                };
                textarea.cancel_selection();
                #[verifier::truncate]
                let first_row = start as u16;
                textarea.move_cursor(TextMove::Jump(first_row, 0));
                let mut row = start;
                while row < end
                    invariant
                        start <= row <= end,
                    decreases end - row,
                {
                    textarea.move_cursor(TextMove::End);
                    textarea.delete_next_char();
                    textarea.insert_char(' ');
                    row = row + 1;
                }
                return Transition::Mode(Mode::Normal);
            },
            Command::SubstituteLine => {
                textarea.move_cursor(TextMove::Head);
                textarea.delete_line_by_end();
                return Transition::Mode(Mode::Insert);
            },
            Command::SubstituteSelection => {
                cut_selection(textarea);
                return Transition::Mode(Mode::Insert);
            },
            Command::ReplaceOnce => return Transition::Mode(Mode::Replace(true)),
            Command::Overtype => return Transition::Mode(Mode::Replace(false)),
            Command::VisualChar => {
                textarea.start_selection();
                return Transition::Mode(Mode::Visual);
            },
            Command::VisualLine => {
                textarea.move_cursor(TextMove::Head);
                textarea.start_selection();
                textarea.move_cursor(TextMove::End);
                return Transition::Mode(Mode::Visual);
            },
            Command::ExitVisual => {
                textarea.cancel_selection();
                return Transition::Mode(Mode::Normal);
            },
            Command::StartOperator(op) => {
                textarea.start_selection();
                return Transition::Mode(Mode::Operator(op));
            },
            Command::YankSelection => {
                textarea.move_cursor(TextMove::Forward);
                textarea.copy();
                return Transition::Mode(Mode::Normal);
            },
            Command::CutSelection => {
                cut_selection(textarea);
                return Transition::Mode(Mode::Normal);
            },
            Command::ChangeSelection => {
                cut_selection(textarea);
                return Transition::Mode(Mode::Insert);
            },
            Command::Pend => return Transition::Pending(input),
        }
        match self.mode {
            Mode::Operator(op) => {
                if op == 'y' {
                    textarea.copy();
                    Transition::Mode(Mode::Normal)
                } else if op == 'd' {
                    textarea.cut();
                    Transition::Mode(Mode::Normal)
                } else if op == 'c' {
                    textarea.cut();
                    Transition::Mode(Mode::Insert)
                } else {
                    Transition::Nop
                }
            },
            _ => Transition::Nop,
        }
    }
}

/// `J`: moves to the end of the line, deletes the line break after it and
/// puts a space in its place; on the last line nothing changes.
fn join_line(textarea: &mut TextField)
    ensures
        in_text(*old(textarea)) && text_field_anchor(*old(textarea)) is None ==> text_field_lines(*final(textarea))
            == if text_field_cursor(*old(textarea)).0 + 1 < text_field_lines(*old(textarea)).len() {
            join_lines_at(text_field_lines(*old(textarea)), text_field_cursor(*old(textarea)).0 as int, seq![' '])
        } else {
            text_field_lines(*old(textarea))
        },
{
    let ghost lines = text_field_lines(*textarea);
    let ghost r = text_field_cursor(*textarea).0 as int;
    let ghost clean = in_text(*textarea) && text_field_anchor(*textarea) is None;
    let row = textarea.cursor().0;
    let count = textarea.lines().len();
    if row < count && row + 1 < count {
        textarea.move_cursor(TextMove::End);
        let ghost at_end = *textarea;
        textarea.delete_next_char();
        let ghost joined = *textarea;
        proof {
            if clean {
                assert(text_field_cursor(at_end) == (r as usize, lines[r].len() as usize));
                assert(in_text(at_end));
                assert(!has_selection(at_end));
                assert(text_field_lines(joined) == join_lines_at(lines, r, Seq::empty()));
                assert(join_lines_at(lines, r, Seq::empty())[r] =~= lines[r] + lines[r + 1]);
                assert(in_text(joined));
            }
        }
        textarea.insert_char(' ');
        proof {
            if clean {
                assert(!has_selection(joined));
                assert((lines[r] + lines[r + 1]).insert(lines[r].len() as int, ' ') =~= lines[r] + seq![' ']
                    + lines[r + 1]);
                assert(join_lines_at(lines, r, Seq::empty()).update(
                    r,
                    (lines[r] + lines[r + 1]).insert(lines[r].len() as int, ' '),
                ) =~= join_lines_at(lines, r, seq![' ']));
            }
        }
    }
}

/// `o` and `O`: a line break at the end (or, `above`, at the head) of the
/// line, the cursor on the new empty line.
fn open_line(textarea: &mut TextField, above: bool)
    ensures
        in_text(*old(textarea)) && text_field_anchor(*old(textarea)) is None ==> text_field_lines(*final(textarea))
            == split_line_at(
            text_field_lines(*old(textarea)),
            (
                text_field_cursor(*old(textarea)).0,
                if above {
                    0usize
                } else {
                    text_field_lines(*old(textarea))[text_field_cursor(*old(textarea)).0 as int].len() as usize
                },
            ),
        ),
{
    if above {
        textarea.move_cursor(TextMove::Head);
        textarea.insert_newline();
        textarea.move_cursor(TextMove::Up);
    } else {
        textarea.move_cursor(TextMove::End);
        textarea.insert_newline();
    }
}

/// Visual `d`, `c` and `S`: the selection takes in the character under the
/// cursor, then is cut.
fn cut_selection(textarea: &mut TextField)
    ensures
        in_text(*old(textarea)) && steps_forward(text_field_lines(*old(textarea)), text_field_cursor(*old(textarea)))
            ==> text_field_lines(*final(textarea)) == cut_between(
            text_field_lines(*old(textarea)),
            text_field_anchor(*old(textarea)),
            forward_of(text_field_lines(*old(textarea)), text_field_cursor(*old(textarea))),
        ) && text_field_yank(*final(textarea)) == yank_of(
            text_field_lines(*old(textarea)),
            text_field_anchor(*old(textarea)),
            forward_of(text_field_lines(*old(textarea)), text_field_cursor(*old(textarea))),
            text_field_yank(*old(textarea)),
        ),
{
    textarea.move_cursor(TextMove::Forward);
    textarea.cut();
}

/// `yy`, `dd`, `cc`: selects the whole line, from its head to the head of
/// the next line, or to its end on the last line.
fn select_line(textarea: &mut TextField)
    ensures
        text_field_lines(*final(textarea)) == text_field_lines(*old(textarea)),
        text_field_yank(*final(textarea)) == text_field_yank(*old(textarea)),
        in_text(*old(textarea)) ==> {
            let lines = text_field_lines(*old(textarea));
            let r = text_field_cursor(*old(textarea)).0;
            &&& in_text(*final(textarea))
            &&& text_field_anchor(*final(textarea)) == Some((r, 0usize))
            &&& text_field_cursor(*final(textarea)) == if r + 1 < lines.len() {
                ((r + 1) as usize, 0usize)
            } else {
                (r, lines[r as int].len() as usize)
            }
        },
{
    let ghost lines = text_field_lines(*textarea);
    let ghost r = text_field_cursor(*textarea).0;
    let ghost clean = in_text(*textarea);
    textarea.move_cursor(TextMove::Head);
    proof {
        if clean {
            assert(text_field_cursor(*textarea) == (r, 0usize));
            assert(in_text(*textarea));
        }
    }
    textarea.start_selection();
    let cursor = textarea.cursor();
    proof {
        if clean {
            assert(in_text(*textarea));
        }
    }
    textarea.move_cursor(TextMove::Down);
    let moved = textarea.cursor();
    if cursor.0 == moved.0 && cursor.1 == moved.1 {
        proof {
            if clean {
                assert(in_text(*textarea));
            }
        }
        textarea.move_cursor(TextMove::End);
    }
}

/// Cutting the selection that `select_line` makes takes out the line.
proof fn lemma_line_cut(lines: Seq<Seq<char>>, r: int)
    requires
        0 <= r < lines.len() <= usize::MAX,
        lines[r].len() <= usize::MAX,
    ensures
        cut_between(
            lines,
            Some((r as usize, 0usize)),
            if r + 1 < lines.len() {
                ((r + 1) as usize, 0usize)
            } else {
                (r as usize, lines[r].len() as usize)
            },
        ) == line_cut(lines, r),
{
    if r + 1 < lines.len() {
        assert(lines[r].take(0) + lines[r + 1].skip(0) =~= lines[r + 1]);
        assert(remove_span(lines, (r as usize, 0usize), ((r + 1) as usize, 0usize)) =~= lines.remove(r));
    } else if lines[r].len() == 0 {
        assert(lines[r] =~= Seq::<char>::empty());
        assert(lines.update(r, Seq::empty()) =~= lines);
    } else {
        assert(lines[r].take(0) + lines[r].skip(lines[r].len() as int) =~= Seq::<char>::empty());
        assert(remove_span(lines, (r as usize, 0usize), (r as usize, lines[r].len() as usize)) =~= lines.update(
            r,
            Seq::empty(),
        ));
    }
}

impl Mode {
    /// The name shown in the text area's border: `NORMAL`, `INSERT`,
    /// `REPLACE`, `VISUAL` or `OPERATOR(c)`.
    pub fn label(&self) -> (label: String)
        ensures
            label@ == mode_label(*self),
    {
        match self {
            Mode::Normal => String::from_str("NORMAL"),
            Mode::Insert => String::from_str("INSERT"),
            Mode::Replace(_) => String::from_str("REPLACE"),
            Mode::Visual => String::from_str("VISUAL"),
            Mode::Operator(c) => {
                let mut label = String::from_str("OPERATOR(");
                push_char(&mut label, *c);
                push_char(&mut label, ')');
                label
            },
        }
    }
}

/// The name of a mode.
pub open spec fn mode_label(mode: Mode) -> Seq<char> {
    match mode {
        Mode::Normal => "NORMAL"@,
        Mode::Insert => "INSERT"@,
        Mode::Replace(_) => "REPLACE"@,
        Mode::Visual => "VISUAL"@,
        Mode::Operator(c) => "OPERATOR("@ + seq![c, ')'],
    }
}

/// A text area with Vim-like modal editing, for the creatures it describes.
pub struct VimTextArea {
    pub target_ids: Vec<CreatureId>,
    pub textarea: TextField,
    vim: Vim,
}

impl VimTextArea {
    /// The emulation state.
    pub closed spec fn vim_state(&self) -> Vim {
        self.vim
    }

    /// The creatures the text is for.
    pub closed spec fn targets(&self) -> Seq<CreatureId> {
        self.target_ids@
    }

    /// The text field.
    pub closed spec fn field(&self) -> TextField {
        self.textarea
    }

    /// A text area holding `initial_text`, in insert mode.
    pub fn new(target_ids: Vec<CreatureId>, initial_text: &str) -> (area: Self)
        ensures
            area.targets() == target_ids@,
            area.vim_state() == (Vim { mode: Mode::Insert, pending: no_input() }),
            !initial_text@.contains('\n') && (initial_text@.len() == 0 || initial_text@.last() != '\r')
                ==> text_field_lines(area.field()) == seq![initial_text@],
    {
        let mut textarea = TextField::new();
        textarea.insert_str(initial_text);
        textarea.set_placeholder("Description");
        VimTextArea { target_ids, textarea, vim: Vim::new(Mode::Insert) }
    }

    /// Handles a key: the command runs on the text and the mode moves on.
    pub fn input(&mut self, key: TextInput)
        ensures
            final(self).targets() == old(self).targets(),
            final(self).vim_state() == after_transition(
                old(self).vim_state(),
                vim_step(
                    old(self).vim_state(),
                    key,
                    x_allowed(text_field_lines(old(self).field()), text_field_cursor(old(self).field())),
                ),
            ),
            touches_nothing(
                old(self).vim_state(),
                key,
                x_allowed(text_field_lines(old(self).field()), text_field_cursor(old(self).field())),
            ) ==> final(self).field() == old(self).field(),
            keeps_lines(
                old(self).vim_state(),
                key,
                x_allowed(text_field_lines(old(self).field()), text_field_cursor(old(self).field())),
            ) ==> text_field_lines(final(self).field()) == text_field_lines(old(self).field()),
            old(self).vim_state().mode == Mode::Insert && key.key != TextKey::Null && !leaves_insert(key)
                ==> key_typed(old(self).field(), final(self).field(), key),
            in_text(old(self).field()) ==> vim_text(
                old(self).vim_state(),
                key,
                x_allowed(text_field_lines(old(self).field()), text_field_cursor(old(self).field())),
                old(self).field(),
                final(self).field(),
            ),
    {
        let vim = self.vim;
        let t = vim.transition(key, &mut self.textarea);
        self.vim = match t {
            Transition::Mode(mode) => if vim.mode != mode {
                Vim::new(mode)
            } else {
                vim
            },
            Transition::Nop => vim,
            Transition::Pending(input) => vim.with_pending(input),
        };
    }

    /// Whether the text area is in normal mode.
    pub fn is_normal_mode(&self) -> (normal: bool)
        ensures
            normal == (self.vim_state().mode == Mode::Normal),
    {
        self.vim.mode == Mode::Normal
    }

    /// The current mode.
    pub fn mode(&self) -> (mode: Mode)
        ensures
            mode == self.vim_state().mode,
    {
        self.vim.mode
    }

    /// The text: the lines joined by newlines.
    pub fn value(&self) -> (text: String)
        ensures
            text@ == field_text(self.field()),
    {
        textarea_value(&self.textarea)
    }
}

/// `d` or `c` followed by `e`, with the operator begun at the cursor, cuts
/// from the cursor through the last character of the word after it: on a
/// line `line` with the cursor at column `c` and the word's run of
/// characters ending at column `k`, the line becomes
/// `line[..c] + line[k + 1..]`.
pub proof fn lemma_operator_word_end_cuts_word(
    vim: Vim,
    input: TextInput,
    old: TextField,
    new: TextField,
    k: int,
)
    requires
        vim.mode == Mode::Operator('d') || vim.mode == Mode::Operator('c'),
        input.key == TextKey::Char('e'),
        !input.ctrl,
        in_text(old),
        text_field_anchor(old) == Some(text_field_cursor(old)),
        word_ends_at(text_field_lines(old)[text_field_cursor(old).0 as int], text_field_cursor(old).1 + 1, k),
        vim_text(vim, input, x_allowed(text_field_lines(old), text_field_cursor(old)), old, new),
    ensures
        ({
            let lines = text_field_lines(old);
            let (r, c) = text_field_cursor(old);
            text_field_lines(new) == lines.update(
                r as int,
                lines[r as int].take(c as int) + lines[r as int].skip(k + 1),
            )
        }),
{
    let lines = text_field_lines(old);
    let p = text_field_cursor(old);
    let x_ok = x_allowed(lines, p);
    assert(command_for(vim.mode, vim.pending, input, x_ok) == Command::WordEnd);
    assert(word_ends_at(lines[p.0 as int], p.1 + 1, k));
    let e = (p.0, (k + 1) as usize);
    assert(selection_between(Some(p), e) == Some((p, e)));
    assert(remove_span(lines, p, e) =~= lines.update(
        p.0 as int,
        lines[p.0 as int].take(p.1 as int) + lines[p.0 as int].skip(k + 1),
    ));
}

} // verus!
