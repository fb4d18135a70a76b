//! The controller: what each input event means, and what the session does
//! with it.

use vstd::prelude::*;
use crate::nav::{
    initial_position, initial_state, lemma_page_back_stays_aligned,
    lemma_page_forward_stays_aligned, lemma_step_back_stays_aligned,
    lemma_step_forward_stays_aligned, Motion, NavigationState, Position,
};
use crate::store::{commit, commitment_of, Commitment, CommitmentView};

verus! {

/// The key of a key press, as far as the picker tells keys apart.
#[derive(Clone, Copy, Debug, PartialEq, Eq, Structural)]
pub enum KeyCode {
    Up,
    Down,
    Left,
    Right,
    PageUp,
    PageDown,
    Enter,
    Char(char),
    Other,
}

/// The modifier keys held down with a key.
#[derive(Clone, Copy, Debug, PartialEq, Eq, Structural)]
pub struct Modifiers {
    pub shift: bool,
    pub control: bool,
    pub alt: bool,
    pub logo: bool,
    pub hyper: bool,
    pub meta: bool,
}

/// What the terminal reports.
#[derive(Clone, Copy, Debug, PartialEq, Eq, Structural)]
pub enum InputEvent {
    /// A key press.
    Key(KeyCode, Modifiers),
    /// Anything else: the mouse, a resize, a paste.
    Other,
}

/// What an input event asks of the session.
#[derive(Clone, Copy, Debug, PartialEq, Eq, Structural)]
pub enum Command {
    Move(Motion),
    Commit,
    Cancel,
    Ignore,
}

/// How far a session has come.
#[derive(Clone, Copy, Debug, PartialEq, Eq, Structural)]
pub enum Phase {
    Running,
    Committed,
    Cancelled,
}

/// A session of the picker.
#[derive(Clone, Copy, Debug, PartialEq, Eq, Structural)]
pub struct Session {
    pub state: NavigationState,
    pub phase: Phase,
}

/// The mathematical picture of a `Session`.
pub struct SessionView {
    pub position: Position,
    pub phase: Phase,
}

impl View for Session {
    type V = SessionView;

    open spec fn view(&self) -> SessionView {
        SessionView { position: self.state@, phase: self.phase }
    }
}

/// Why no session is opened.
#[derive(Clone, Copy, Debug, PartialEq, Eq, Structural)]
pub enum Refusal {
    /// There is nothing to choose from.
    EmptyList,
    /// A page has to hold at least one item.
    ZeroPageSize,
}

/// What the front end does after an event.
#[derive(Debug, PartialEq, Eq)]
pub enum Action {
    /// Paint the state and wait for the next event.
    Redraw,
    /// Store the choice and leave.
    Persist(Commitment),
    /// Leave and store nothing.
    Leave,
}

/// The mathematical picture of an `Action`.
pub enum ActionView {
    Redraw,
    Persist(CommitmentView),
    Leave,
}

impl View for Action {
    type V = ActionView;

    open spec fn view(&self) -> ActionView {
        match self {
            Action::Redraw => ActionView::Redraw,
            Action::Persist(commitment) => ActionView::Persist(commitment@),
            Action::Leave => ActionView::Leave,
        }
    }
}

impl Modifiers {
    /// The control key is held down, and no other modifier with it.
    pub open spec fn only_control(self) -> bool {
        self.control && !self.shift && !self.alt && !self.logo && !self.hyper && !self.meta
    }

    /// Tells whether the control key is held down alone.
    pub fn is_only_control(&self) -> (b: bool)
        ensures
            b == self.only_control(),
    {
        self.control && !self.shift && !self.alt && !self.logo && !self.hyper && !self.meta
    }
}

/// What an event asks for. The arrow and page keys move; Enter, the right
/// arrow and the space bar commit; `c` with the control key alone cancels;
/// everything else is ignored.
pub open spec fn command_of(event: InputEvent) -> Command {
    match event {
        InputEvent::Key(KeyCode::Up, _) => Command::Move(Motion::Up),
        InputEvent::Key(KeyCode::Down, _) => Command::Move(Motion::Down),
        InputEvent::Key(KeyCode::PageUp, _) => Command::Move(Motion::PageUp),
        InputEvent::Key(KeyCode::PageDown, _) => Command::Move(Motion::PageDown),
        InputEvent::Key(KeyCode::Left, _) => Command::Move(Motion::Left),
        InputEvent::Key(KeyCode::Enter, _) => Command::Commit,
        InputEvent::Key(KeyCode::Right, _) => Command::Commit,
        InputEvent::Key(KeyCode::Char(c), modifiers) => if c == ' ' {
            Command::Commit
        } else if c == 'c' && modifiers.only_control() {
            Command::Cancel
        } else {
            Command::Ignore
        },
        InputEvent::Key(KeyCode::Other, _) => Command::Ignore,
        InputEvent::Other => Command::Ignore,
    }
}

impl SessionView {
    /// The session after a command. Only a running session changes.
    pub open spec fn after(self, command: Command, len: int, page_size: int) -> SessionView {
        if self.phase != Phase::Running {
            self
        } else {
            match command {
                Command::Move(motion) => SessionView {
                    position: self.position.moved(motion, len, page_size),
                    phase: Phase::Running,
                },
                Command::Commit => SessionView {
                    position: self.position,
                    phase: Phase::Committed,
                },
                Command::Cancel => SessionView {
                    position: self.position,
                    phase: Phase::Cancelled,
                },
                Command::Ignore => self,
            }
        }
    }

    /// What the front end does after a command: a running session is
    /// painted again, a commit stores the choice, and a cancelled or ended
    /// session leaves.
    pub open spec fn action(self, command: Command, items: Seq<Seq<char>>) -> ActionView {
        if self.phase != Phase::Running {
            ActionView::Leave
        } else {
            match command {
                Command::Move(_) => ActionView::Redraw,
                Command::Commit => ActionView::Persist(
                    commitment_of(items, self.position.selected),
                ),
                Command::Cancel => ActionView::Leave,
                Command::Ignore => ActionView::Redraw,
            }
        }
    }

    /// The session after a run of events, first to last.
    pub open spec fn after_all(
        self,
        events: Seq<InputEvent>,
        len: int,
        page_size: int,
    ) -> SessionView
        decreases events.len(),
    {
        if events.len() == 0 {
            self
        } else {
            self.after(command_of(events[0]), len, page_size).after_all(
                events.skip(1),
                len,
                page_size,
            )
        }
    }
}

/// What an event asks of the session.
pub fn command_for(event: InputEvent) -> (command: Command)
    ensures
        command == command_of(event),
{
    match event {
        InputEvent::Key(code, modifiers) => match code {
            KeyCode::Up => Command::Move(Motion::Up),
            KeyCode::Down => Command::Move(Motion::Down),
            KeyCode::PageUp => Command::Move(Motion::PageUp),
            KeyCode::PageDown => Command::Move(Motion::PageDown),
            KeyCode::Left => Command::Move(Motion::Left),
            KeyCode::Enter => Command::Commit,
            KeyCode::Right => Command::Commit,
            KeyCode::Char(c) => if c == ' ' {
                Command::Commit
            } else if c == 'c' && modifiers.is_only_control() {
                Command::Cancel
            } else {
                Command::Ignore
            },
            KeyCode::Other => Command::Ignore,
        },
        InputEvent::Other => Command::Ignore,
    }
}

/// The session at its start: running, on the restored item where there is
/// one, else on the first. An empty list opens no session, and neither does
/// a page size of zero.
pub fn start(len: usize, page_size: usize, restored_index: Option<usize>) -> (opened: Result<
    Session,
    Refusal,
>)
    ensures
        match opened {
            Ok(session) => {
                &&& len >= 1
                &&& page_size >= 1
                &&& session@ == (SessionView {
                    position: initial_position(
                        len as int,
                        page_size as int,
                        match restored_index {
                            Some(index) => Some(index as int),
                            None => None,
                        },
                    ),
                    phase: Phase::Running,
                })
                &&& session.state@.valid(len as int, page_size as int)
            },
            Err(Refusal::EmptyList) => len == 0,
            Err(Refusal::ZeroPageSize) => len >= 1 && page_size == 0,
        },
{
    if len == 0 {
        Err(Refusal::EmptyList)
    } else if page_size == 0 {
        Err(Refusal::ZeroPageSize)
    } else {
        Ok(Session { state: initial_state(len, page_size, restored_index), phase: Phase::Running })
    }
}

/// Carries out one command: the session that follows, and what the front
/// end has to do.
pub fn perform(
    session: Session,
    items: &Vec<String>,
    page_size: usize,
    command: Command,
) -> (result: (Session, Action))
    requires
        session.state@.valid(items.len() as int, page_size as int),
    ensures
        result.0@ == session@.after(command, items.len() as int, page_size as int),
        result.1@ == session@.action(command, items.deep_view()),
        result.0.state@.valid(items.len() as int, page_size as int),
{
    match session.phase {
        Phase::Running => match command {
            Command::Move(motion) => (
                Session {
                    state: session.state.apply(motion, items.len(), page_size),
                    phase: Phase::Running,
                },
                Action::Redraw,
            ),
            Command::Commit => (
                Session { state: session.state, phase: Phase::Committed },
                Action::Persist(commit(items, session.state.selected)),
            ),
            Command::Cancel => (
                Session { state: session.state, phase: Phase::Cancelled },
                Action::Leave,
            ),
            Command::Ignore => (session, Action::Redraw),
        },
        _ => (session, Action::Leave),
    }
}

/// Takes one input event: the session that follows, and what the front end
/// has to do.
pub fn step(
    session: Session,
    items: &Vec<String>,
    page_size: usize,
    event: InputEvent,
) -> (result: (Session, Action))
    requires
        session.state@.valid(items.len() as int, page_size as int),
    ensures
        result.0@ == session@.after(command_of(event), items.len() as int, page_size as int),
        result.1@ == session@.action(command_of(event), items.deep_view()),
        result.0.state@.valid(items.len() as int, page_size as int),
{
    perform(session, items, page_size, command_for(event))
}

/// Whatever events arrive, and however many, the position of a session
/// stays valid; and a session that has been committed or cancelled stays as
/// it is.
pub proof fn lemma_session_keeps_valid(
    session: SessionView,
    events: Seq<InputEvent>,
    len: int,
    page_size: int,
)
    requires
        session.position.valid(len, page_size),
    ensures
        session.after_all(events, len, page_size).position.valid(len, page_size),
        session.phase != Phase::Running ==> session.after_all(events, len, page_size) == session,
    decreases events.len(),
{
    if events.len() > 0 {
        lemma_step_back_stays_aligned(session.position, len, page_size);
        lemma_step_forward_stays_aligned(session.position, len, page_size);
        lemma_page_back_stays_aligned(session.position, len, page_size);
        lemma_page_forward_stays_aligned(session.position, len, page_size);
        lemma_session_keeps_valid(
            session.after(command_of(events[0]), len, page_size),
            events.skip(1),
            len,
            page_size,
        );
    }
}

} // verus!
