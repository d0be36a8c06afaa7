//! The startup picker: choose or create a session, then choose or create an
//! encounter in it. The picker decides; the file work it asks for (listing,
//! creating and loading) is done by the caller, who hands the result back.

use vstd::prelude::*;

use std::path::PathBuf;

use crate::action::Action;
use crate::models::input::{key_typed, text_field_lines, TextField, TextInput, TextKey};
use crate::storage::{required_error, validate_name, EncounterInfo, PersistedEncounter, SessionInfo};
use crate::text::{joined, push_char, trim_chars};

verus! {

/// Which list the picker shows.
#[derive(Clone, Copy, Debug, Eq, PartialEq, Structural)]
pub enum PickerStep {
    Session,
    Encounter,
}

/// Which name the picker's text field asks for.
#[derive(Clone, Copy, Debug, Eq, PartialEq, Structural)]
pub enum PickerInput {
    SessionName,
    EncounterName,
}

/// File work the picker needs done.
#[derive(Debug)]
pub enum PickerRequest {
    /// List the sessions of the data folder.
    ListSessions,
    /// Create a session with this name.
    CreateSession(String),
    /// List the encounters of this session.
    ListEncounters(SessionInfo),
    /// Create an encounter with this name in this session.
    CreateEncounter(SessionInfo, String),
    /// Load this encounter.
    LoadEncounter(EncounterInfo),
}

/// The result of the file work, or the error it ran into.
#[derive(Debug)]
pub enum PickerResponse {
    Sessions(Result<Vec<SessionInfo>, String>),
    SessionCreated(Result<SessionInfo, String>),
    Encounters(Result<Vec<EncounterInfo>, String>),
    EncounterCreated(Result<EncounterInfo, String>),
    EncounterLoaded(Result<PersistedEncounter, String>),
}

/// What the picker hands back.
#[derive(Debug)]
pub enum PickerOutcome {
    /// Finished, with the action for the application, if any.
    Done(Option<Action>),
    /// Do this work and hand the result to `resume`.
    Request(PickerRequest),
    /// The sessions could not be listed at start-up.
    Failed(String),
}

/// What the picker does with the next response.
#[derive(Debug)]
pub enum PickerWait {
    /// The sessions listed at start-up.
    SessionsForConfig,
    /// The session just created.
    SessionCreated,
    /// The sessions, re-listed after this session was created.
    SessionsAfterCreate(SessionInfo),
    /// The encounters of the session just created.
    EncountersAfterCreateSession,
    /// The encounters of the chosen session.
    EncountersForSelect,
    /// The encounter just created.
    EncounterCreated,
    /// The encounters, re-listed after this encounter was created.
    EncountersAfterCreateEncounter(EncounterInfo),
    /// This encounter's saved contents.
    Loaded(EncounterInfo),
}

/// Startup picker for selecting or creating session and encounter files.
pub struct SessionPicker {
    pub data_dir: PathBuf,
    /// Whether the picker still has the screen.
    pub active: bool,
    pub step: PickerStep,
    /// The name being typed, if the text field is open.
    pub input: Option<PickerInput>,
    pub sessions: Vec<SessionInfo>,
    pub encounters: Vec<EncounterInfo>,
    /// The session whose encounters are shown.
    pub selected_session: Option<SessionInfo>,
    /// The highlighted session's position.
    pub session_state: Option<usize>,
    /// The highlighted encounter's position.
    pub encounter_state: Option<usize>,
    pub textarea: TextField,
    /// The last error, shown in the footer.
    pub message: Option<String>,
    /// The file work the picker waits for.
    pub waiting: Option<PickerWait>,
}

/// The selection kept within a list of `len` items: none for an empty list,
/// else the old one (the first when there was none) but at most the last.
pub open spec fn clamped(selected: Option<usize>, len: usize) -> Option<usize> {
    if len == 0 {
        None
    } else {
        let s = if selected is Some { selected->0 } else { 0 };
        Some(if s < len - 1 { s } else { (len - 1) as usize })
    }
}

/// The selection after moving down a list of `len` items, wrapping to the
/// top; the first item when there was none.
pub open spec fn wrapped_next(selected: Option<usize>, len: usize) -> Option<usize> {
    if len == 0 {
        None
    } else {
        match selected {
            Some(i) => Some(((i + 1) % (len as int)) as usize),
            None => Some(0usize),
        }
    }
}

/// The selection after moving up a list of `len` items, wrapping to the
/// bottom; the first item when there was none.
pub open spec fn wrapped_previous(selected: Option<usize>, len: usize) -> Option<usize> {
    if len == 0 {
        None
    } else {
        match selected {
            Some(i) => Some(if i == 0 { (len - 1) as usize } else { (i - 1) as usize }),
            None => Some(0usize),
        }
    }
}

/// Keeps the selection within a list of `len` items.
pub fn clamp_selection(state: &mut Option<usize>, len: usize)
    ensures
        *final(state) == clamped(*old(state), len),
{
    if len == 0 {
        *state = None;
        return;
    }
    let selected = match *state {
        Some(s) => s,
        None => 0,
    };
    *state = Some(if selected < len - 1 { selected } else { len - 1 });
}

/// Moves the selection down, wrapping to the top.
pub fn select_next_wrapping(state: &mut Option<usize>, len: usize)
    requires
        *old(state) != Some(usize::MAX),
    ensures
        *final(state) == wrapped_next(*old(state), len),
{
    if len == 0 {
        *state = None;
        return;
    }
    let next = match *state {
        Some(index) => {
            proof {
                vstd::arithmetic::div_mod::lemma_mod_bound((index + 1) as int, len as int);
            }
            if index < len - 1 {
                proof {
                    vstd::arithmetic::div_mod::lemma_small_mod((index + 1) as nat, len as nat);
                }
                index + 1
            } else {
                (index + 1) % len
            }
        },
        None => 0,
    };
    *state = Some(next);
}

/// Moves the selection up, wrapping to the bottom.
pub fn select_previous_wrapping(state: &mut Option<usize>, len: usize)
    ensures
        *final(state) == wrapped_previous(*old(state), len),
{
    if len == 0 {
        *state = None;
        return;
    }
    let previous = match *state {
        Some(index) => if index == 0 {
            len - 1
        } else {
            index - 1
        },
        None => 0,
    };
    *state = Some(previous);
}

/// The name typed into the text field: its lines joined with spaces, trimmed.
pub open spec fn typed_name(field: TextField) -> Seq<char> {
    trim_chars(joined(text_field_lines(field), seq![' ']))
}

/// What a picker does on Enter in its text field for `input`: refuse a blank
/// name with the required-name error, else ask for the session or encounter
/// to be created. An encounter needs a chosen session, which is checked
/// first.
pub open spec fn name_submitted(old: SessionPicker, new: SessionPicker, input: PickerInput, out: PickerOutcome) -> bool {
    let name = typed_name(old.textarea);
    match input {
        PickerInput::SessionName => if name.len() == 0 {
            failed_with(old, new, out, required_error("session name"@))
        } else {
            asks(old, new, out, PickerWait::SessionCreated) && (
            out matches PickerOutcome::Request(PickerRequest::CreateSession(n)) && n@ == name)
        },
        PickerInput::EncounterName => match old.selected_session {
            None => failed_with(old, new, out, "select a session before creating an encounter"@),
            Some(s) => if name.len() == 0 {
                failed_with(old, new, out, required_error("encounter name"@))
            } else {
                asks(old, new, out, PickerWait::EncounterCreated) && (
                out matches PickerOutcome::Request(PickerRequest::CreateEncounter(rs, n)) && rs == s && n@
                    == name)
            },
        },
    }
}

/// The item at `selected`, if the selection is on the list.
pub open spec fn selected_in<A>(items: Seq<A>, selected: Option<usize>) -> Option<A> {
    match selected {
        Some(i) => if i < items.len() {
            Some(items[i as int])
        } else {
            None
        },
        None => None,
    }
}

/// The first position of a session with folder name `dir_name`.
pub open spec fn session_position(sessions: Seq<SessionInfo>, dir_name: Seq<char>) -> Option<usize> {
    if exists|i: int| 0 <= i < sessions.len() && sessions[i].dir_name@ == dir_name {
        Some(
            (choose|i: int|
                0 <= i < sessions.len() && sessions[i].dir_name@ == dir_name && forall|j: int|
                    0 <= j < i ==> sessions[j].dir_name@ != dir_name) as usize,
        )
    } else {
        None
    }
}

/// The first position of an encounter with file name `file_name`.
pub open spec fn encounter_position(encounters: Seq<EncounterInfo>, file_name: Seq<char>) -> Option<usize> {
    if exists|i: int| 0 <= i < encounters.len() && encounters[i].file_name@ == file_name {
        Some(
            (choose|i: int|
                0 <= i < encounters.len() && encounters[i].file_name@ == file_name && forall|j: int|
                    0 <= j < i ==> encounters[j].file_name@ != file_name) as usize,
        )
    } else {
        None
    }
}

/// The picker shows the error `msg` and asks the application to report it.
pub open spec fn failed_with(old: SessionPicker, new: SessionPicker, out: PickerOutcome, msg: Seq<char>) -> bool {
    &&& new == SessionPicker { message: new.message, waiting: None, ..old }
    &&& new.message matches Some(m) && m@ == msg
    &&& out matches PickerOutcome::Done(Some(Action::Error(e))) && e@ == msg
}

/// The picker asks for `request` and waits with `wait`, nothing else changed.
pub open spec fn asks(old: SessionPicker, new: SessionPicker, out: PickerOutcome, wait: PickerWait) -> bool {
    &&& new == SessionPicker { waiting: Some(wait), ..old }
}

/// Opening the text field for `input`: empty, with no message.
pub open spec fn input_opened(old: SessionPicker, new: SessionPicker, input: PickerInput) -> bool {
    &&& new == SessionPicker { input: Some(input), textarea: new.textarea, message: None, ..old }
    &&& text_field_lines(new.textarea) == seq![Seq::<char>::empty()]
}

/// Loading encounter `e`: an error without a chosen session, else a request
/// to load it.
pub open spec fn loading(old: SessionPicker, new: SessionPicker, out: PickerOutcome, e: EncounterInfo) -> bool {
    if old.selected_session is None {
        failed_with(old, new, out, "select a session before opening an encounter"@)
    } else {
        &&& asks(old, new, out, PickerWait::Loaded(e))
        &&& out matches PickerOutcome::Request(PickerRequest::LoadEncounter(r)) && r == e
    }
}

/// What a key does to the picker.
pub open spec fn picker_key(old: SessionPicker, new: SessionPicker, key: TextInput, out: PickerOutcome) -> bool {
    if !old.active || old.waiting is Some {
        new == old && out == PickerOutcome::Done(None)
    } else if old.input is Some {
        if key.key == TextKey::Esc {
            new == SessionPicker { input: None, ..old } && out == PickerOutcome::Done(Some(Action::Render))
        } else if key.key == TextKey::Enter {
            name_submitted(old, new, old.input->0, out)
        } else {
            &&& new == SessionPicker { textarea: new.textarea, ..old }
            &&& key_typed(old.textarea, new.textarea, key)
            &&& out == PickerOutcome::Done(Some(Action::Render))
        }
    } else if key.key == TextKey::Char('j') || key.key == TextKey::Down {
        out == PickerOutcome::Done(Some(Action::Render)) && match old.step {
            PickerStep::Session => new == SessionPicker {
                session_state: wrapped_next(old.session_state, old.sessions.len()),
                ..old
            },
            PickerStep::Encounter => new == SessionPicker {
                encounter_state: wrapped_next(old.encounter_state, old.encounters.len()),
                ..old
            },
        }
    } else if key.key == TextKey::Char('k') || key.key == TextKey::Up {
        out == PickerOutcome::Done(Some(Action::Render)) && match old.step {
            PickerStep::Session => new == SessionPicker {
                session_state: wrapped_previous(old.session_state, old.sessions.len()),
                ..old
            },
            PickerStep::Encounter => new == SessionPicker {
                encounter_state: wrapped_previous(old.encounter_state, old.encounters.len()),
                ..old
            },
        }
    } else if key.key == TextKey::Char('n') {
        out == PickerOutcome::Done(Some(Action::Render)) && input_opened(
            old,
            new,
            match old.step {
                PickerStep::Session => PickerInput::SessionName,
                PickerStep::Encounter => PickerInput::EncounterName,
            },
        )
    } else if key.key == TextKey::Enter {
        match old.step {
            PickerStep::Session => match selected_in(old.sessions@, old.session_state) {
                None => out == PickerOutcome::Done(Some(Action::Render)) && input_opened(
                    old,
                    new,
                    PickerInput::SessionName,
                ),
                Some(s) => new == SessionPicker {
                    selected_session: Some(s),
                    waiting: Some(PickerWait::EncountersForSelect),
                    ..old
                } && (out matches PickerOutcome::Request(PickerRequest::ListEncounters(r)) && r == s),
            },
            PickerStep::Encounter => match selected_in(old.encounters@, old.encounter_state) {
                None => out == PickerOutcome::Done(Some(Action::Render)) && input_opened(
                    old,
                    new,
                    PickerInput::EncounterName,
                ),
                Some(e) => loading(old, new, out, e),
            },
        }
    } else if key.key == TextKey::Esc {
        out == PickerOutcome::Done(Some(Action::Render)) && if old.step == PickerStep::Encounter {
            new == SessionPicker {
                step: PickerStep::Session,
                selected_session: None,
                encounters: new.encounters,
                ..old
            } && new.encounters@.len() == 0
        } else {
            new == old
        }
    } else {
        new == old && out == PickerOutcome::Done(None)
    }
}

/// What a response does to the picker that waits for it.
pub open spec fn picker_resumed(old: SessionPicker, new: SessionPicker, resp: PickerResponse, out: PickerOutcome) -> bool {
    let idle = SessionPicker { waiting: None, ..old };
    match (old.waiting, resp) {
        (Some(PickerWait::SessionsForConfig), PickerResponse::Sessions(Ok(v))) => new == SessionPicker {
            sessions: v,
            session_state: clamped(old.session_state, v.len()),
            ..idle
        } && out == PickerOutcome::Done(None),
        (Some(PickerWait::SessionsForConfig), PickerResponse::Sessions(Err(e))) => new == idle && out
            == PickerOutcome::Failed(e),
        (Some(PickerWait::SessionCreated), PickerResponse::SessionCreated(Ok(s))) => new == SessionPicker {
            waiting: Some(PickerWait::SessionsAfterCreate(s)),
            ..old
        } && out == PickerOutcome::Request(PickerRequest::ListSessions),
        (Some(PickerWait::SessionsAfterCreate(s)), PickerResponse::Sessions(Ok(v))) => {
            let clamped_state = clamped(old.session_state, v.len());
            &&& new == SessionPicker {
                sessions: v,
                session_state: match session_position(v@, s.dir_name@) {
                    Some(i) => Some(i),
                    None => clamped_state,
                },
                selected_session: Some(s),
                waiting: Some(PickerWait::EncountersAfterCreateSession),
                ..old
            }
            &&& out matches PickerOutcome::Request(PickerRequest::ListEncounters(r)) && r == s
        },
        (Some(PickerWait::EncountersAfterCreateSession), PickerResponse::Encounters(Ok(v))) => new
            == SessionPicker {
            encounters: v,
            encounter_state: clamped(old.encounter_state, v.len()),
            step: PickerStep::Encounter,
            input: None,
            ..idle
        } && out == PickerOutcome::Done(Some(Action::Render)),
        (Some(PickerWait::EncountersForSelect), PickerResponse::Encounters(Ok(v))) => new == SessionPicker {
            encounters: v,
            encounter_state: clamped(old.encounter_state, v.len()),
            step: PickerStep::Encounter,
            ..idle
        } && out == PickerOutcome::Done(Some(Action::Render)),
        (Some(PickerWait::EncounterCreated), PickerResponse::EncounterCreated(Ok(e))) => match old.selected_session {
            Some(s) => new == SessionPicker { waiting: Some(PickerWait::EncountersAfterCreateEncounter(e)), ..old }
                && (out matches PickerOutcome::Request(PickerRequest::ListEncounters(r)) && r == s),
            None => {
                let listed = SessionPicker {
                    encounters: new.encounters,
                    encounter_state: match encounter_position(Seq::empty(), e.file_name@) {
                        Some(i) => Some(i),
                        None => clamped(old.encounter_state, 0),
                    },
                    input: None,
                    ..idle
                };
                new.encounters@.len() == 0 && loading(listed, new, out, e)
            },
        },
        (Some(PickerWait::EncountersAfterCreateEncounter(e)), PickerResponse::Encounters(Ok(v))) => {
            let listed = SessionPicker {
                encounters: v,
                encounter_state: match encounter_position(v@, e.file_name@) {
                    Some(i) => Some(i),
                    None => clamped(old.encounter_state, v.len()),
                },
                input: None,
                ..idle
            };
            loading(listed, new, out, e)
        },
        (Some(PickerWait::Loaded(e)), PickerResponse::EncounterLoaded(Ok(p))) => match old.selected_session {
            Some(s) => new == SessionPicker { active: false, ..idle } && out == PickerOutcome::Done(
                Some(
                    Action::LoadEncounter {
                        session_dir: s.dir_name,
                        encounter_file: e.file_name,
                        encounter_name: p.name,
                        creatures: p.creatures,
                    },
                ),
            ),
            None => failed_with(old, new, out, "select a session before opening an encounter"@),
        },
        (Some(_), PickerResponse::Sessions(Err(e))) => failed_with(old, new, out, e@),
        (Some(_), PickerResponse::SessionCreated(Err(e))) => failed_with(old, new, out, e@),
        (Some(_), PickerResponse::Encounters(Err(e))) => failed_with(old, new, out, e@),
        (Some(_), PickerResponse::EncounterCreated(Err(e))) => failed_with(old, new, out, e@),
        (Some(_), PickerResponse::EncounterLoaded(Err(e))) => failed_with(old, new, out, e@),
        _ => new == old && out == PickerOutcome::Done(None),
    }
}

fn copy_session(s: &SessionInfo) -> (c: SessionInfo)
    ensures
        c == *s,
{
    SessionInfo { dir_name: s.dir_name.clone(), path: s.path.clone(), date: s.date.clone(), name: s.name.clone() }
}

fn copy_encounter(e: &EncounterInfo) -> (c: EncounterInfo)
    ensures
        c == *e,
{
    EncounterInfo { file_name: e.file_name.clone(), path: e.path.clone(), name: e.name.clone() }
}

fn find_session(sessions: &Vec<SessionInfo>, dir_name: &String) -> (position: Option<usize>)
    ensures
        position == session_position(sessions@, dir_name@),
{
    let mut i: usize = 0;
    while i < sessions.len()
        invariant
            i <= sessions.len(),
            forall|j: int| 0 <= j < i ==> sessions@[j].dir_name@ != dir_name@,
        decreases sessions.len() - i,
    {
        if sessions[i].dir_name == *dir_name {
            proof {
                let k = choose|k: int|
                    0 <= k < sessions@.len() && sessions@[k].dir_name@ == dir_name@ && forall|j: int|
                        0 <= j < k ==> sessions@[j].dir_name@ != dir_name@;
                if k < i {
                } else if k > i {
                    assert(sessions@[i as int].dir_name@ == dir_name@);
                }
            }
            return Some(i);
        }
        i = i + 1;
    }
    None
}

fn find_encounter(encounters: &Vec<EncounterInfo>, file_name: &String) -> (position: Option<usize>)
    ensures
        position == encounter_position(encounters@, file_name@),
{
    let mut i: usize = 0;
    while i < encounters.len()
        invariant
            i <= encounters.len(),
            forall|j: int| 0 <= j < i ==> encounters@[j].file_name@ != file_name@,
        decreases encounters.len() - i,
    {
        if encounters[i].file_name == *file_name {
            proof {
                let k = choose|k: int|
                    0 <= k < encounters@.len() && encounters@[k].file_name@ == file_name@ && forall|j: int|
                        0 <= j < k ==> encounters@[j].file_name@ != file_name@;
                if k < i {
                } else if k > i {
                    assert(encounters@[i as int].file_name@ == file_name@);
                }
            }
            return Some(i);
        }
        i = i + 1;
    }
    None
}

/// The typed text: the lines joined with spaces.
fn typed(field: &TextField) -> (name: String)
    ensures
        name@ == joined(text_field_lines(*field), seq![' ']),
{
    let lines = field.lines();
    let ghost ls = lines@.map_values(|line: String| line@);
    let mut text = String::new();
    let mut i: usize = 0;
    while i < lines.len()
        invariant
            i <= lines.len(),
            ls == lines@.map_values(|line: String| line@),
            text@ == joined(ls.take(i as int), seq![' ']),
        decreases lines.len() - i,
    {
        assert(ls.take(i + 1).drop_last() =~= ls.take(i as int));
        if i > 0 {
            push_char(&mut text, ' ');
        } else {
            assert(ls.take(0) =~= Seq::<Seq<char>>::empty());
        }
        text.append(lines[i].as_str());
        i = i + 1;
    }
    assert(ls.take(i as int) =~= ls);
    text
}

impl Default for SessionPicker {
    fn default() -> (picker: Self)
        ensures
            picker.active,
            picker.step == PickerStep::Session,
            picker.input is None,
            picker.sessions@.len() == 0,
            picker.encounters@.len() == 0,
            picker.selected_session is None,
            picker.waiting is None,
    {
        Self::new()
    }
}

impl SessionPicker {
    /// A picker on the session list, with nothing listed yet.
    pub fn new() -> (picker: Self)
        ensures
            picker.active,
            picker.step == PickerStep::Session,
            picker.input is None,
            picker.sessions@.len() == 0,
            picker.encounters@.len() == 0,
            picker.selected_session is None,
            picker.session_state is None,
            picker.encounter_state is None,
            text_field_lines(picker.textarea) == seq![Seq::<char>::empty()],
            picker.message is None,
            picker.waiting is None,
    {
        SessionPicker {
            data_dir: PathBuf::new(),
            active: true,
            step: PickerStep::Session,
            input: None,
            sessions: Vec::new(),
            encounters: Vec::new(),
            selected_session: None,
            session_state: None,
            encounter_state: None,
            textarea: TextField::new(),
            message: None,
            waiting: None,
        }
    }

    /// Takes the data folder and asks for its sessions.
    pub fn register_config(&mut self, data_dir: PathBuf) -> (out: PickerOutcome)
        ensures
            *final(self) == (SessionPicker {
                data_dir,
                waiting: Some(PickerWait::SessionsForConfig),
                ..*old(self)
            }),
            out == PickerOutcome::Request(PickerRequest::ListSessions),
    {
        self.data_dir = data_dir;
        self.waiting = Some(PickerWait::SessionsForConfig);
        PickerOutcome::Request(PickerRequest::ListSessions)
    }

    /// The highlighted session.
    pub fn selected_session(&self) -> (s: Option<SessionInfo>)
        ensures
            s == selected_in(self.sessions@, self.session_state),
    {
        match self.session_state {
            Some(index) => if index < self.sessions.len() {
                Some(copy_session(&self.sessions[index]))
            } else {
                None
            },
            None => None,
        }
    }

    /// The highlighted encounter.
    pub fn selected_encounter(&self) -> (e: Option<EncounterInfo>)
        ensures
            e == selected_in(self.encounters@, self.encounter_state),
    {
        match self.encounter_state {
            Some(index) => if index < self.encounters.len() {
                Some(copy_encounter(&self.encounters[index]))
            } else {
                None
            },
            None => None,
        }
    }

    /// Opens the text field for a new name.
    pub fn open_input(&mut self, input: PickerInput)
        ensures
            input_opened(*old(self), *final(self), input),
    {
        self.input = Some(input);
        self.textarea = TextField::new();
        self.message = None;
    }

    fn fail(&mut self, message: String) -> (out: PickerOutcome)
        ensures
            failed_with(*old(self), *final(self), out, message@),
    {
        let reported = message.clone();
        self.message = Some(message);
        self.waiting = None;
        PickerOutcome::Done(Some(Action::Error(reported)))
    }

    fn load_encounter(&mut self, encounter: EncounterInfo) -> (out: PickerOutcome)
        ensures
            loading(*old(self), *final(self), out, encounter),
    {
        if self.selected_session.is_none() {
            proof {
                reveal_strlit("select a session before opening an encounter");
            }
            return self.fail(String::from_str("select a session before opening an encounter"));
        }
        let request = copy_encounter(&encounter);
        self.waiting = Some(PickerWait::Loaded(encounter));
        PickerOutcome::Request(PickerRequest::LoadEncounter(request))
    }

    fn submit_input(&mut self, input: PickerInput) -> (out: PickerOutcome)
        requires
            old(self).input == Some(input),
        ensures
            name_submitted(*old(self), *final(self), input, out),
    {
        let text = typed(&self.textarea);
        match input {
            PickerInput::SessionName => {
                proof {
                    reveal_strlit("session name");
                }
                let name = match validate_name(text.as_str(), "session name") {
                    Ok(name) => name,
                    Err(message) => return self.fail(message),
                };
                self.waiting = Some(PickerWait::SessionCreated);
                PickerOutcome::Request(PickerRequest::CreateSession(name))
            },
            PickerInput::EncounterName => {
                let session = match &self.selected_session {
                    Some(session) => copy_session(session),
                    None => {
                        proof {
                            reveal_strlit("select a session before creating an encounter");
                        }
                        return self.fail(String::from_str("select a session before creating an encounter"));
                    },
                };
                proof {
                    reveal_strlit("encounter name");
                }
                let name = match validate_name(text.as_str(), "encounter name") {
                    Ok(name) => name,
                    Err(message) => return self.fail(message),
                };
                self.waiting = Some(PickerWait::EncounterCreated);
                PickerOutcome::Request(PickerRequest::CreateEncounter(session, name))
            },
        }
    }

    /// Handles a key: moves, opens the name field, chooses, goes back, or
    /// asks for the file work a choice needs.
    pub fn handle_key_event(&mut self, key: TextInput) -> (out: PickerOutcome)
        requires
            old(self).session_state != Some(usize::MAX),
            old(self).encounter_state != Some(usize::MAX),
        ensures
            picker_key(*old(self), *final(self), key, out),
    {
        if !self.active || self.waiting.is_some() {
            return PickerOutcome::Done(None);
        }
        if let Some(input) = self.input {
            match key.key {
                TextKey::Esc => {
                    self.input = None;
                },
                TextKey::Enter => {
                    return self.submit_input(input);
                },
                _ => {
                    self.textarea.input(key);
                },
            }
            return PickerOutcome::Done(Some(Action::Render));
        }
        let c = match key.key {
            TextKey::Char(c) => c,
            TextKey::Down => 'j',
            TextKey::Up => 'k',
            _ => '\0',
        };
        if c == 'j' {
            self.move_next();
            return PickerOutcome::Done(Some(Action::Render));
        }
        if c == 'k' {
            self.move_previous();
            return PickerOutcome::Done(Some(Action::Render));
        }
        if c == 'n' {
            self.open_input(
                match self.step {
                    PickerStep::Session => PickerInput::SessionName,
                    PickerStep::Encounter => PickerInput::EncounterName,
                },
            );
            return PickerOutcome::Done(Some(Action::Render));
        }
        match key.key {
            TextKey::Enter => match self.step {
                PickerStep::Session => self.select_session(),
                PickerStep::Encounter => self.select_encounter(),
            },
            TextKey::Esc => {
                self.go_back();
                PickerOutcome::Done(Some(Action::Render))
            },
            _ => PickerOutcome::Done(None),
        }
    }

    fn move_next(&mut self)
        requires
            old(self).session_state != Some(usize::MAX),
            old(self).encounter_state != Some(usize::MAX),
        ensures
            match old(self).step {
                PickerStep::Session => *final(self) == (SessionPicker {
                    session_state: wrapped_next(old(self).session_state, old(self).sessions.len()),
                    ..*old(self)
                }),
                PickerStep::Encounter => *final(self) == (SessionPicker {
                    encounter_state: wrapped_next(old(self).encounter_state, old(self).encounters.len()),
                    ..*old(self)
                }),
            },
    {
        match self.step {
            PickerStep::Session => select_next_wrapping(&mut self.session_state, self.sessions.len()),
            PickerStep::Encounter => select_next_wrapping(&mut self.encounter_state, self.encounters.len()),
        }
    }

    fn move_previous(&mut self)
        ensures
            match old(self).step {
                PickerStep::Session => *final(self) == (SessionPicker {
                    session_state: wrapped_previous(old(self).session_state, old(self).sessions.len()),
                    ..*old(self)
                }),
                PickerStep::Encounter => *final(self) == (SessionPicker {
                    encounter_state: wrapped_previous(old(self).encounter_state, old(self).encounters.len()),
                    ..*old(self)
                }),
            },
    {
        match self.step {
            PickerStep::Session => select_previous_wrapping(&mut self.session_state, self.sessions.len()),
            PickerStep::Encounter => select_previous_wrapping(&mut self.encounter_state, self.encounters.len()),
        }
    }

    /// Enter on the session list: the highlighted session's encounters are
    /// asked for, or the name field opens when nothing is highlighted.
    fn select_session(&mut self) -> (out: PickerOutcome)
        ensures
            match selected_in(old(self).sessions@, old(self).session_state) {
                None => out == PickerOutcome::Done(Some(Action::Render)) && input_opened(
                    *old(self),
                    *final(self),
                    PickerInput::SessionName,
                ),
                Some(s) => *final(self) == (SessionPicker {
                    selected_session: Some(s),
                    waiting: Some(PickerWait::EncountersForSelect),
                    ..*old(self)
                }) && (out matches PickerOutcome::Request(PickerRequest::ListEncounters(r)) && r == s),
            },
    {
        match self.selected_session() {
            None => {
                self.open_input(PickerInput::SessionName);
                PickerOutcome::Done(Some(Action::Render))
            },
            Some(session) => {
                let request = copy_session(&session);
                self.selected_session = Some(session);
                self.waiting = Some(PickerWait::EncountersForSelect);
                PickerOutcome::Request(PickerRequest::ListEncounters(request))
            },
        }
    }

    /// Enter on the encounter list: the highlighted encounter is loaded, or
    /// the name field opens when nothing is highlighted.
    fn select_encounter(&mut self) -> (out: PickerOutcome)
        ensures
            match selected_in(old(self).encounters@, old(self).encounter_state) {
                None => out == PickerOutcome::Done(Some(Action::Render)) && input_opened(
                    *old(self),
                    *final(self),
                    PickerInput::EncounterName,
                ),
                Some(e) => loading(*old(self), *final(self), out, e),
            },
    {
        match self.selected_encounter() {
            None => {
                self.open_input(PickerInput::EncounterName);
                PickerOutcome::Done(Some(Action::Render))
            },
            Some(encounter) => self.load_encounter(encounter),
        }
    }

    /// Esc without the name field: from the encounter list back to the
    /// session list, forgetting the chosen session.
    fn go_back(&mut self)
        ensures
            old(self).step == PickerStep::Encounter ==> *final(self) == (SessionPicker {
                step: PickerStep::Session,
                selected_session: None,
                encounters: final(self).encounters,
                ..*old(self)
            }) && final(self).encounters@.len() == 0,
            old(self).step == PickerStep::Session ==> *final(self) == *old(self),
    {
        if self.step == PickerStep::Encounter {
            self.step = PickerStep::Session;
            self.selected_session = None;
            self.encounters.clear();
        }
    }

    /// Takes the result of the file work the picker asked for.
    pub fn resume(&mut self, response: PickerResponse) -> (out: PickerOutcome)
        ensures
            picker_resumed(*old(self), *final(self), response, out),
    {
        let waiting = match self.waiting.take() {
            Some(w) => w,
            None => return PickerOutcome::Done(None),
        };
        match (waiting, response) {
            (PickerWait::SessionsForConfig, PickerResponse::Sessions(Ok(v))) => {
                clamp_selection(&mut self.session_state, v.len());
                self.sessions = v;
                PickerOutcome::Done(None)
            },
            (PickerWait::SessionsForConfig, PickerResponse::Sessions(Err(e))) => PickerOutcome::Failed(e),
            (PickerWait::SessionCreated, PickerResponse::SessionCreated(Ok(s))) => {
                self.waiting = Some(PickerWait::SessionsAfterCreate(s));
                PickerOutcome::Request(PickerRequest::ListSessions)
            },
            (PickerWait::SessionsAfterCreate(s), PickerResponse::Sessions(Ok(v))) => {
                clamp_selection(&mut self.session_state, v.len());
                if let Some(index) = find_session(&v, &s.dir_name) {
                    self.session_state = Some(index);
                }
                self.sessions = v;
                let request = copy_session(&s);
                self.selected_session = Some(s);
                self.waiting = Some(PickerWait::EncountersAfterCreateSession);
                PickerOutcome::Request(PickerRequest::ListEncounters(request))
            },
            (PickerWait::EncountersAfterCreateSession, PickerResponse::Encounters(Ok(v))) => {
                clamp_selection(&mut self.encounter_state, v.len());
                self.encounters = v;
                self.step = PickerStep::Encounter;
                self.input = None;
                PickerOutcome::Done(Some(Action::Render))
            },
            (PickerWait::EncountersForSelect, PickerResponse::Encounters(Ok(v))) => {
                clamp_selection(&mut self.encounter_state, v.len());
                self.encounters = v;
                self.step = PickerStep::Encounter;
                PickerOutcome::Done(Some(Action::Render))
            },
            (PickerWait::EncounterCreated, PickerResponse::EncounterCreated(Ok(e))) => {
                match &self.selected_session {
                    Some(session) => {
                        let request = copy_session(session);
                        self.waiting = Some(PickerWait::EncountersAfterCreateEncounter(e));
                        PickerOutcome::Request(PickerRequest::ListEncounters(request))
                    },
                    None => {
                        self.encounters = Vec::new();
                        clamp_selection(&mut self.encounter_state, 0);
                        self.input = None;
                        self.load_encounter(e)
                    },
                }
            },
            (PickerWait::EncountersAfterCreateEncounter(e), PickerResponse::Encounters(Ok(v))) => {
                clamp_selection(&mut self.encounter_state, v.len());
                if let Some(index) = find_encounter(&v, &e.file_name) {
                    self.encounter_state = Some(index);
                }
                self.encounters = v;
                self.input = None;
                self.load_encounter(e)
            },
            (PickerWait::Loaded(e), PickerResponse::EncounterLoaded(Ok(p))) => {
                let session_dir = match &self.selected_session {
                    Some(session) => session.dir_name.clone(),
                    None => {
                        proof {
                            reveal_strlit("select a session before opening an encounter");
                        }
                        self.waiting = Some(PickerWait::Loaded(e));
                        return self.fail(String::from_str("select a session before opening an encounter"));
                    },
                };
                self.active = false;
                PickerOutcome::Done(
                    Some(
                        Action::LoadEncounter {
                            session_dir,
                            encounter_file: e.file_name,
                            encounter_name: p.name,
                            creatures: p.creatures,
                        },
                    ),
                )
            },
            (w, PickerResponse::Sessions(Err(e))) => {
                self.waiting = Some(w);
                self.fail(e)
            },
            (w, PickerResponse::SessionCreated(Err(e))) => {
                self.waiting = Some(w);
                self.fail(e)
            },
            (w, PickerResponse::Encounters(Err(e))) => {
                self.waiting = Some(w);
                self.fail(e)
            },
            (w, PickerResponse::EncounterCreated(Err(e))) => {
                self.waiting = Some(w);
                self.fail(e)
            },
            (w, PickerResponse::EncounterLoaded(Err(e))) => {
                self.waiting = Some(w);
                self.fail(e)
            },
            (w, _) => {
                self.waiting = Some(w);
                PickerOutcome::Done(None)
            },
        }
    }
}

/// The item above position `i` in a list of `len` items, wrapping from the
/// first to the last.
pub open spec fn item_above(i: usize, len: usize) -> usize {
    if i > 0 { (i - 1) as usize } else { (len - 1) as usize }
}

/// With no text field open and the picker idle, `k` or Up moves the
/// highlight of the shown list from position `i` up one, wrapping from the
/// first item to the last; nothing else changes.
pub proof fn lemma_up_moves_highlight_up(
    old: SessionPicker,
    new: SessionPicker,
    key: TextInput,
    out: PickerOutcome,
    i: usize,
)
    requires
        picker_key(old, new, key, out),
        old.active,
        old.waiting is None,
        old.input is None,
        key.key == TextKey::Char('k') || key.key == TextKey::Up,
    ensures
        old.step == PickerStep::Session && old.session_state == Some(i) && i < old.sessions@.len() ==> new == (
        SessionPicker { session_state: Some(item_above(i, old.sessions@.len() as usize)), ..old }),
        old.step == PickerStep::Encounter && old.encounter_state == Some(i) && i < old.encounters@.len() ==> new == (
        SessionPicker { encounter_state: Some(item_above(i, old.encounters@.len() as usize)), ..old }),
{
}

/// `(i + 1) % len` for a position `i` in a list of `len` items.
proof fn lemma_next_position(i: usize, len: nat)
    requires
        i < len,
    ensures
        (i + 1) % (len as int) == if i + 1 < len { i + 1 } else { 0 },
{
    if i + 1 < len {
        vstd::arithmetic::div_mod::lemma_small_mod((i + 1) as nat, len);
    } else {
        vstd::arithmetic::div_mod::lemma_mod_self_0(len as int);
    }
}

/// Moving the highlight down (`j` or Down) and then up (`k` or Up) returns
/// it to where it was, in either list.
pub proof fn lemma_down_then_up_returns(
    old: SessionPicker,
    mid: SessionPicker,
    new: SessionPicker,
    down: TextInput,
    up: TextInput,
    out1: PickerOutcome,
    out2: PickerOutcome,
    i: usize,
)
    requires
        picker_key(old, mid, down, out1),
        picker_key(mid, new, up, out2),
        old.active,
        old.waiting is None,
        old.input is None,
        down.key == TextKey::Char('j') || down.key == TextKey::Down,
        up.key == TextKey::Char('k') || up.key == TextKey::Up,
        old.step == PickerStep::Session ==> old.session_state == Some(i) && i < old.sessions@.len(),
        old.step == PickerStep::Encounter ==> old.encounter_state == Some(i) && i < old.encounters@.len(),
    ensures
        new == old,
{
    if old.step == PickerStep::Session {
        lemma_next_position(i, old.sessions@.len());
    } else {
        lemma_next_position(i, old.encounters@.len());
    }
}

} // verus!
