//! The per-connection session: handshake, relay and cleanup, written as a
//! state machine. The caller performs the I/O and hands each outcome in as a
//! [`SessionInput`]; the session answers with the [`SessionAction`]s to carry
//! out, in order.

use vstd::prelude::*;
use crate::registry::{after_join, name_free_after_leave, roster_of, try_join_with_user_name, without, ParticipantRegistry};
use crate::text::{concat_str, is_valid_name, trim_text, trimmed, valid_name};

verus! {

/// A message on the bus: the connection it came from and its text.
#[derive(Clone, Debug, PartialEq, Eq)]
pub struct ChatEvent {
    pub origin: u64,
    pub text: String,
}

/// The outcome of reading one line from the client.
#[derive(Clone, Debug, PartialEq, Eq)]
pub enum LineRead {
    /// A line, without its terminator.
    Line(String),
    /// The client closed the stream.
    Closed,
    /// Reading failed.
    Failed,
}

/// Why a handshake ended without a name.
#[derive(Debug, PartialEq, Eq)]
pub enum UserPreambleError {
    /// The client sent no line, or a line that is no valid name.
    Protocol,
    /// Reading the line failed.
    IO,
}

/// Where a session stands.
#[derive(Clone, Copy, Debug, PartialEq, Eq)]
pub enum SessionState {
    AwaitingName,
    Active,
    Terminated,
}

/// What happened at one of the session's suspension points.
#[derive(Clone, Debug, PartialEq, Eq)]
pub enum SessionInput {
    /// The handshake read completed.
    NameLine(LineRead),
    /// The relay read completed.
    PeerLine(LineRead),
    /// An event arrived from the bus.
    BusEvent(ChatEvent),
    /// The bus dropped events this session was too slow to take.
    BusLagged,
    /// The bus subscription closed.
    BusClosed,
    /// Writing to the client failed.
    WriteFailed,
}

/// A step that the caller carries out for the session.
#[derive(Clone, Debug, PartialEq, Eq)]
pub enum SessionAction {
    /// Write this text and a line terminator to the client, then flush.
    Send(String),
    /// Subscribe to the bus.
    Subscribe,
    /// Publish this event on the bus.
    Publish(ChatEvent),
    /// Drop the bus subscription.
    Unsubscribe,
    /// Close the connection.
    Close,
}

/// The meaning of a [`SessionAction`].
pub enum Effect {
    Send(Seq<char>),
    Subscribe,
    Publish(u64, Seq<char>),
    Unsubscribe,
    Close,
}

impl View for SessionAction {
    type V = Effect;

    open spec fn view(&self) -> Effect {
        match self {
            SessionAction::Send(t) => Effect::Send(t@),
            SessionAction::Subscribe => Effect::Subscribe,
            SessionAction::Publish(e) => Effect::Publish(e.origin, e.text@),
            SessionAction::Unsubscribe => Effect::Unsubscribe,
            SessionAction::Close => Effect::Close,
        }
    }
}

/// The meanings of a list of actions.
pub open spec fn effects(actions: Seq<SessionAction>) -> Seq<Effect> {
    actions.map_values(|a: SessionAction| a@)
}

/// The line sent when a connection opens.
pub open spec fn prompt_text() -> Seq<char> {
    "Welcome to budgetchat! What shall I call you?"@
}

/// The line that tells a new participant who is present.
pub open spec fn room_text(roster: Seq<char>) -> Seq<char> {
    "* The room contains: "@ + roster
}

/// The notice that `name` joined.
pub open spec fn entered_text(name: Seq<char>) -> Seq<char> {
    "* "@ + name + " has entered the room"@
}

/// A line that `name` wrote.
pub open spec fn said_text(name: Seq<char>, line: Seq<char>) -> Seq<char> {
    "["@ + name + "] "@ + line
}

/// The notice that `name` left.
pub open spec fn left_text(name: Seq<char>) -> Seq<char> {
    "* "@ + name + " has left the room"@
}

/// A session's state, name, requested effects and the registry after one step.
pub struct Transition {
    pub state: SessionState,
    pub name: Option<Seq<char>>,
    pub effects: Seq<Effect>,
    pub registry: Seq<Seq<char>>,
}

/// Nothing changes and nothing is done.
pub open spec fn stay(state: SessionState, name: Option<Seq<char>>, reg: Seq<Seq<char>>) -> Transition {
    Transition { state, name, effects: Seq::empty(), registry: reg }
}

/// The connection closes with no further writes and no broadcast.
pub open spec fn close_quietly(name: Option<Seq<char>>, reg: Seq<Seq<char>>) -> Transition {
    Transition { state: SessionState::Terminated, name, effects: seq![Effect::Close], registry: reg }
}

/// An active participant leaves: unsubscribe, free the name, tell the others.
pub open spec fn leave_room(id: u64, name: Seq<char>, reg: Seq<Seq<char>>) -> Transition {
    Transition {
        state: SessionState::Terminated,
        name: Some(name),
        effects: seq![Effect::Unsubscribe, Effect::Publish(id, left_text(name)), Effect::Close],
        registry: without(reg, name),
    }
}

/// What session `id` does on `input`, given its state and name and the
/// registry's names.
pub open spec fn transition(
    id: u64,
    state: SessionState,
    name: Option<Seq<char>>,
    input: SessionInput,
    reg: Seq<Seq<char>>,
) -> Transition {
    match state {
        SessionState::AwaitingName => match input {
            SessionInput::NameLine(LineRead::Line(l)) => {
                let n = trimmed(l@);
                if valid_name(n) && !reg.contains(n) {
                    Transition {
                        state: SessionState::Active,
                        name: Some(n),
                        effects: seq![
                            Effect::Send(room_text(roster_of(reg))),
                            Effect::Subscribe,
                            Effect::Publish(id, entered_text(n)),
                        ],
                        registry: reg.push(n),
                    }
                } else {
                    close_quietly(name, reg)
                }
            },
            SessionInput::NameLine(_) => close_quietly(name, reg),
            SessionInput::WriteFailed => close_quietly(name, reg),
            _ => stay(state, name, reg),
        },
        SessionState::Active => match input {
            SessionInput::PeerLine(LineRead::Line(l)) => Transition {
                state,
                name,
                effects: seq![Effect::Publish(id, said_text(name.unwrap(), l@))],
                registry: reg,
            },
            SessionInput::PeerLine(_) => leave_room(id, name.unwrap(), reg),
            SessionInput::BusClosed => leave_room(id, name.unwrap(), reg),
            SessionInput::WriteFailed => leave_room(id, name.unwrap(), reg),
            SessionInput::BusEvent(e) => if e.origin != id {
                Transition { state, name, effects: seq![Effect::Send(e.text@)], registry: reg }
            } else {
                stay(state, name, reg)
            },
            _ => stay(state, name, reg),
        },
        SessionState::Terminated => stay(state, name, reg),
    }
}

/// The session of one connection.
pub struct ChatRoomClient {
    connection_id: u64,
    user_name: Option<String>,
    state: SessionState,
}

impl ChatRoomClient {
    /// The connection's identifier.
    pub closed spec fn spec_id(&self) -> u64 {
        self.connection_id
    }

    /// The chosen display name, once there is one.
    pub closed spec fn spec_name(&self) -> Option<Seq<char>> {
        match self.user_name {
            Some(n) => Some(n@),
            None => None,
        }
    }

    /// Where the session stands.
    pub closed spec fn spec_state(&self) -> SessionState {
        self.state
    }

    /// A name is chosen exactly once the handshake has succeeded.
    pub open spec fn wf(&self) -> bool {
        &&& self.spec_state() == SessionState::AwaitingName ==> self.spec_name() is None
        &&& self.spec_state() == SessionState::Active ==> self.spec_name() is Some
    }

    /// A session for a new connection, waiting for a name.
    pub fn new(connection_id: u64) -> (r: Self)
        ensures
            r.wf(),
            r.spec_id() == connection_id,
            r.spec_name() is None,
            r.spec_state() == SessionState::AwaitingName,
    {
        ChatRoomClient { connection_id, user_name: None, state: SessionState::AwaitingName }
    }

    /// The connection's identifier.
    pub fn connection_id(&self) -> (r: u64)
        ensures
            r == self.spec_id(),
    {
        self.connection_id
    }

    /// Where the session stands.
    pub fn state(&self) -> (r: SessionState)
        ensures
            r == self.spec_state(),
    {
        self.state
    }

    /// The chosen display name, once there is one.
    pub fn user_name(&self) -> (r: Option<String>)
        ensures
            r matches Some(n) ==> self.spec_name() == Some(n@),
            r is None ==> self.spec_name() is None,
    {
        match &self.user_name {
            Some(n) => Some(n.clone()),
            None => None,
        }
    }

    /// The line that asks a new connection for a name.
    pub fn welcome_prompt() -> (r: String)
        ensures
            r@ == prompt_text(),
    {
        String::from_str("Welcome to budgetchat! What shall I call you?")
    }

    /// An event of this connection carrying `message`.
    pub fn broadcast_message(&self, message: String) -> (r: ChatEvent)
        ensures
            r.origin == self.spec_id(),
            r.text@ == message@,
    {
        ChatEvent { origin: self.connection_id, text: message }
    }

    /// The notice that this participant joined.
    pub fn broadcast_join_message(&self) -> (r: ChatEvent)
        requires
            self.spec_name() is Some,
        ensures
            r.origin == self.spec_id(),
            r.text@ == entered_text(self.spec_name().unwrap()),
    {
        let user_name = self.user_name.as_ref().unwrap();
        let mut text = concat_str("* ", user_name.as_str());
        text.append(" has entered the room");
        self.broadcast_message(text)
    }

    /// A line that this participant wrote.
    pub fn broadcast_user_message(&self, user_message: String) -> (r: ChatEvent)
        requires
            self.spec_name() is Some,
        ensures
            r.origin == self.spec_id(),
            r.text@ == said_text(self.spec_name().unwrap(), user_message@),
    {
        let user_name = self.user_name.as_ref().unwrap();
        let mut text = concat_str("[", user_name.as_str());
        text.append("] ");
        text.append(user_message.as_str());
        self.broadcast_message(text)
    }

    /// The notice that this participant left.
    pub fn broadcast_disconnect_message(&self) -> (r: ChatEvent)
        requires
            self.spec_name() is Some,
        ensures
            r.origin == self.spec_id(),
            r.text@ == left_text(self.spec_name().unwrap()),
    {
        let user_name = self.user_name.as_ref().unwrap();
        let mut text = concat_str("* ", user_name.as_str());
        text.append(" has left the room");
        self.broadcast_message(text)
    }

    /// Reads the name out of the handshake line: the line trimmed, when that
    /// is a valid name.
    pub fn client_join_preamble(&self, name_input_line: LineRead) -> (r: Result<String, UserPreambleError>)
        ensures
            name_input_line matches LineRead::Line(l) ==> {
                &&& valid_name(trimmed(l@)) ==> (r matches Ok(n) && n@ == trimmed(l@))
                &&& !valid_name(trimmed(l@)) ==> r == Err::<String, UserPreambleError>(UserPreambleError::Protocol)
            },
            name_input_line is Closed ==> r == Err::<String, UserPreambleError>(UserPreambleError::Protocol),
            name_input_line is Failed ==> r == Err::<String, UserPreambleError>(UserPreambleError::IO),
    {
        match name_input_line {
            LineRead::Line(name_input) => {
                let user_name = trim_text(name_input.as_str());
                if is_valid_name(user_name.as_str()) {
                    Ok(user_name)
                } else {
                    Err(UserPreambleError::Protocol)
                }
            },
            LineRead::Closed => Err(UserPreambleError::Protocol),
            LineRead::Failed => Err(UserPreambleError::IO),
        }
    }

    /// The text that tells a new participant who is present.
    fn room_message(roster: &String) -> (r: String)
        ensures
            r@ == room_text(roster@),
    {
        concat_str("* The room contains: ", roster.as_str())
    }

    /// Ends an active session: frees the name and asks to unsubscribe,
    /// announce the departure and close.
    fn leave_room(&mut self, registry: &mut ParticipantRegistry) -> (actions: Vec<SessionAction>)
        requires
            old(self).wf(),
            old(self).spec_state() == SessionState::Active,
            old(registry).wf(),
        ensures
            final(self).wf(),
            final(registry).wf(),
            final(self).spec_id() == old(self).spec_id(),
            ({
                let t = leave_room(old(self).spec_id(), old(self).spec_name().unwrap(), old(registry)@);
                &&& final(self).spec_state() == t.state
                &&& final(self).spec_name() == t.name
                &&& effects(actions@) == t.effects
                &&& final(registry)@ == t.registry
            }),
    {
        let notice = self.broadcast_disconnect_message();
        let user_name = self.user_name.as_ref().unwrap();
        registry.leave(user_name);
        self.state = SessionState::Terminated;
        let mut actions: Vec<SessionAction> = Vec::new();
        actions.push(SessionAction::Unsubscribe);
        actions.push(SessionAction::Publish(notice));
        actions.push(SessionAction::Close);
        assert(effects(actions@) =~= leave_room(
            old(self).spec_id(),
            old(self).spec_name().unwrap(),
            old(registry)@,
        ).effects);
        actions
    }

    /// Handles one input and returns the actions to carry out, in order.
    /// While waiting for a name: a valid name that is free joins the room
    /// (send the roster, subscribe, announce); anything else closes quietly.
    /// While active: a line is published under the name; a bus event from
    /// another connection is sent to the client and one from this connection
    /// is dropped; the end of the stream, a failed write or a closed bus
    /// ends the session, freeing the name and announcing the departure.
    pub fn handle_input(&mut self, input: SessionInput, registry: &mut ParticipantRegistry) -> (actions: Vec<SessionAction>)
        requires
            old(self).wf(),
            old(registry).wf(),
        ensures
            final(self).wf(),
            final(registry).wf(),
            final(self).spec_id() == old(self).spec_id(),
            ({
                let t = transition(old(self).spec_id(), old(self).spec_state(), old(self).spec_name(), input, old(registry)@);
                &&& final(self).spec_state() == t.state
                &&& final(self).spec_name() == t.name
                &&& effects(actions@) == t.effects
                &&& final(registry)@ == t.registry
            }),
    {
        let ghost t = transition(self.spec_id(), self.spec_state(), self.spec_name(), input, registry@);
        let mut actions: Vec<SessionAction> = Vec::new();
        match self.state {
            SessionState::AwaitingName => match input {
                SessionInput::NameLine(read) => {
                    match self.client_join_preamble(read) {
                        Ok(user_name) => match try_join_with_user_name(&user_name, registry) {
                            Ok(roster) => {
                                self.user_name = Some(user_name);
                                self.state = SessionState::Active;
                                let notice = self.broadcast_join_message();
                                actions.push(SessionAction::Send(Self::room_message(&roster)));
                                actions.push(SessionAction::Subscribe);
                                actions.push(SessionAction::Publish(notice));
                                assert(effects(actions@) =~= t.effects);
                            },
                            Err(()) => {
                                self.state = SessionState::Terminated;
                                actions.push(SessionAction::Close);
                                assert(effects(actions@) =~= t.effects);
                            },
                        },
                        Err(_) => {
                            self.state = SessionState::Terminated;
                            actions.push(SessionAction::Close);
                            assert(effects(actions@) =~= t.effects);
                        },
                    }
                },
                SessionInput::WriteFailed => {
                    self.state = SessionState::Terminated;
                    actions.push(SessionAction::Close);
                    assert(effects(actions@) =~= t.effects);
                },
                _ => {
                    assert(effects(actions@) =~= t.effects);
                },
            },
            SessionState::Active => match input {
                SessionInput::PeerLine(LineRead::Line(user_message)) => {
                    let event = self.broadcast_user_message(user_message);
                    actions.push(SessionAction::Publish(event));
                    assert(effects(actions@) =~= t.effects);
                },
                SessionInput::PeerLine(_) => {
                    actions = self.leave_room(registry);
                },
                SessionInput::BusClosed => {
                    actions = self.leave_room(registry);
                },
                SessionInput::WriteFailed => {
                    actions = self.leave_room(registry);
                },
                SessionInput::BusEvent(event) => {
                    if event.origin != self.connection_id {
                        actions.push(SessionAction::Send(event.text));
                    }
                    assert(effects(actions@) =~= t.effects);
                },
                _ => {
                    assert(effects(actions@) =~= t.effects);
                },
            },
            SessionState::Terminated => {
                assert(effects(actions@) =~= t.effects);
            },
        }
        actions
    }
}

/// The handshake admits a line exactly when its trimmed text is a name of 1
/// to 16 bytes, all alphanumeric, that nobody holds; then the name joins the
/// registry. Any other line closes the connection with no write, no
/// broadcast and the registry unchanged.
pub proof fn handshake_admits_exactly_valid_free_names(id: u64, line: String, reg: Seq<Seq<char>>)
    ensures
        ({
            let n = trimmed(line@);
            let t = transition(id, SessionState::AwaitingName, None, SessionInput::NameLine(LineRead::Line(line)), reg);
            &&& (t.state == SessionState::Active) <==> (valid_name(n) && !reg.contains(n))
            &&& t.state == SessionState::Active ==> t.registry == after_join(reg, n) && t.name == Some(n)
            &&& t.state != SessionState::Active ==> {
                &&& t.state == SessionState::Terminated
                &&& t.effects == seq![Effect::Close]
                &&& t.registry == reg
            }
        }),
{
}

/// A session never writes to its client an event that it published itself;
/// an active session writes every event of another connection.
pub proof fn own_events_are_never_delivered(
    id: u64,
    state: SessionState,
    name: Option<Seq<char>>,
    event: ChatEvent,
    reg: Seq<Seq<char>>,
)
    ensures
        ({
            let t = transition(id, state, name, SessionInput::BusEvent(event), reg);
            &&& event.origin == id ==> t.effects == Seq::<Effect>::empty()
            &&& (event.origin != id && state == SessionState::Active) ==> t.effects == seq![Effect::Send(event.text@)]
            &&& t.registry == reg
        }),
{
}

/// When an active session ends, its name leaves the registry, and a later
/// handshake with that name is admitted.
pub proof fn name_reusable_after_session_ends(
    id: u64,
    name: Seq<char>,
    input: SessionInput,
    reg: Seq<Seq<char>>,
    other: u64,
    line: String,
)
    requires
        reg.no_duplicates(),
        valid_name(name),
        transition(id, SessionState::Active, Some(name), input, reg).state == SessionState::Terminated,
        trimmed(line@) == name,
    ensures
        ({
            let left = transition(id, SessionState::Active, Some(name), input, reg).registry;
            let t = transition(other, SessionState::AwaitingName, None, SessionInput::NameLine(LineRead::Line(line)), left);
            &&& !left.contains(name)
            &&& t.state == SessionState::Active
            &&& t.registry == left.push(name)
        }),
{
    name_free_after_leave(reg, name);
}

/// The first participant is told the room holds `-`; each later one is told
/// the names present before it, joined by `", "`.
pub proof fn roster_lists_prior_participants(id: u64, line: String, reg: Seq<Seq<char>>)
    requires
        valid_name(trimmed(line@)),
        !reg.contains(trimmed(line@)),
    ensures
        ({
            let t = transition(id, SessionState::AwaitingName, None, SessionInput::NameLine(LineRead::Line(line)), reg);
            &&& reg.len() == 0 ==> t.effects[0] == Effect::Send("* The room contains: "@ + seq!['-'])
            &&& reg.len() > 0 ==> t.effects[0] == Effect::Send(room_text(crate::text::joined(reg, seq![',', ' '])))
        }),
{
}

} // verus!
