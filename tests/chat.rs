use budgetchat::registry::{try_join_with_user_name, ParticipantRegistry};
use budgetchat::session::{
    ChatEvent, ChatRoomClient, LineRead, SessionAction, SessionInput, SessionState, UserPreambleError,
};
use budgetchat::text::is_valid_name;

/// A room of sessions sharing one registry and a bus that hands every
/// published event to every subscribed session, the publisher included.
struct Room {
    registry: ParticipantRegistry,
    sessions: Vec<ChatRoomClient>,
    subscribed: Vec<bool>,
    closed: Vec<bool>,
    received: Vec<Vec<String>>,
}

impl Room {
    fn new() -> Room {
        Room {
            registry: ParticipantRegistry::new(),
            sessions: Vec::new(),
            subscribed: Vec::new(),
            closed: Vec::new(),
            received: Vec::new(),
        }
    }

    fn connect(&mut self) -> usize {
        let id = self.sessions.len();
        self.sessions.push(ChatRoomClient::new(id as u64 + 1));
        self.subscribed.push(false);
        self.closed.push(false);
        self.received.push(vec![ChatRoomClient::welcome_prompt()]);
        id
    }

    fn input(&mut self, who: usize, input: SessionInput) {
        let actions = self.sessions[who].handle_input(input, &mut self.registry);
        for action in actions {
            match action {
                SessionAction::Send(text) => self.received[who].push(text),
                SessionAction::Subscribe => self.subscribed[who] = true,
                SessionAction::Unsubscribe => self.subscribed[who] = false,
                SessionAction::Close => self.closed[who] = true,
                SessionAction::Publish(event) => {
                    for other in 0..self.sessions.len() {
                        if self.subscribed[other] {
                            self.input(other, SessionInput::BusEvent(event.clone()));
                        }
                    }
                }
            }
        }
    }

    fn submit(&mut self, who: usize, line: &str) {
        let input = match self.sessions[who].state() {
            SessionState::AwaitingName => SessionInput::NameLine(LineRead::Line(line.to_string())),
            _ => SessionInput::PeerLine(LineRead::Line(line.to_string())),
        };
        self.input(who, input);
    }

    fn last(&self, who: usize) -> String {
        self.received[who].last().unwrap().clone()
    }
}

fn name(s: &str) -> String {
    s.to_string()
}

#[test]
fn test_valid_name_check() {
    assert!(is_valid_name("a"));
    assert!(is_valid_name("1"));
    assert!(is_valid_name("abc123"));

    assert!(!is_valid_name(""));
    assert!(!is_valid_name(" "));
    assert!(!is_valid_name("-"));
    assert!(!is_valid_name("abc+123"));
    assert!(!is_valid_name("abcdefghijklmnopq"));
}

#[test]
fn valid_names_have_one_to_sixteen_bytes() {
    assert!(is_valid_name("abcdefghijklmnop"));
    assert!(is_valid_name("Zz09"));
    assert!(!is_valid_name("Bob!"));
    assert!(!is_valid_name("a b"));
    // Non-ASCII letters are alphanumeric but count by their UTF-8 bytes.
    assert!(is_valid_name("é"));
    assert!(!is_valid_name("éééééééééé"));
}

#[test]
fn first_joiner_sees_dash() {
    let mut registry = ParticipantRegistry::new();
    assert_eq!(try_join_with_user_name(&name("Alice"), &mut registry), Ok(name("-")));
    assert_eq!(registry.len(), 1);
}

#[test]
fn later_joiners_see_prior_names() {
    let mut registry = ParticipantRegistry::new();
    assert_eq!(try_join_with_user_name(&name("Alice"), &mut registry), Ok(name("-")));
    assert_eq!(try_join_with_user_name(&name("Bob"), &mut registry), Ok(name("Alice")));
    assert_eq!(try_join_with_user_name(&name("Carol"), &mut registry), Ok(name("Alice, Bob")));
    assert_eq!(registry.len(), 3);
}

#[test]
fn same_name_joins_once() {
    let mut registry = ParticipantRegistry::new();
    let mut accepted = 0;
    for _ in 0..5 {
        if try_join_with_user_name(&name("Dave"), &mut registry).is_ok() {
            accepted += 1;
        }
    }
    assert_eq!(accepted, 1);
    assert_eq!(registry.len(), 1);
    assert!(registry.contains(&name("Dave")));
}

#[test]
fn left_name_can_join_again() {
    let mut registry = ParticipantRegistry::new();
    assert!(try_join_with_user_name(&name("Alice"), &mut registry).is_ok());
    assert!(try_join_with_user_name(&name("Bob"), &mut registry).is_ok());
    assert_eq!(try_join_with_user_name(&name("Bob"), &mut registry), Err(()));
    registry.leave(&name("Bob"));
    assert!(!registry.contains(&name("Bob")));
    assert_eq!(try_join_with_user_name(&name("Bob"), &mut registry), Ok(name("Alice")));
    registry.leave(&name("Nobody"));
    assert_eq!(registry.len(), 2);
}

#[test]
fn preamble_trims_and_validates() {
    let client = ChatRoomClient::new(7);
    assert_eq!(client.client_join_preamble(LineRead::Line(name("  Alice \r"))), Ok(name("Alice")));
    assert_eq!(client.client_join_preamble(LineRead::Line(name("Al ice"))), Err(UserPreambleError::Protocol));
    assert_eq!(client.client_join_preamble(LineRead::Line(name("   "))), Err(UserPreambleError::Protocol));
    assert_eq!(client.client_join_preamble(LineRead::Closed), Err(UserPreambleError::Protocol));
    assert_eq!(client.client_join_preamble(LineRead::Failed), Err(UserPreambleError::IO));
}

#[test]
fn message_formats() {
    let mut registry = ParticipantRegistry::new();
    let mut client = ChatRoomClient::new(3);
    let actions = client.handle_input(SessionInput::NameLine(LineRead::Line(name("Eve"))), &mut registry);
    assert_eq!(actions.len(), 3);
    assert_eq!(client.user_name(), Some(name("Eve")));
    assert_eq!(client.broadcast_join_message().text, "* Eve has entered the room");
    assert_eq!(client.broadcast_user_message(name("hello there")).text, "[Eve] hello there");
    assert_eq!(client.broadcast_disconnect_message().text, "* Eve has left the room");
    assert_eq!(client.broadcast_message(name("x")), ChatEvent { origin: 3, text: name("x") });
    assert_eq!(ChatRoomClient::welcome_prompt(), "Welcome to budgetchat! What shall I call you?");
}

#[test]
fn own_events_are_not_delivered() {
    let mut registry = ParticipantRegistry::new();
    let mut client = ChatRoomClient::new(4);
    client.handle_input(SessionInput::NameLine(LineRead::Line(name("Finn"))), &mut registry);
    let own = ChatEvent { origin: 4, text: name("[Finn] hi") };
    assert!(client.handle_input(SessionInput::BusEvent(own), &mut registry).is_empty());
    let other = ChatEvent { origin: 5, text: name("[Gus] yo") };
    assert_eq!(
        client.handle_input(SessionInput::BusEvent(other), &mut registry),
        vec![SessionAction::Send(name("[Gus] yo"))]
    );
    assert!(client.handle_input(SessionInput::BusLagged, &mut registry).is_empty());
}

#[test]
fn ending_an_active_session_frees_the_name() {
    let mut registry = ParticipantRegistry::new();
    let mut client = ChatRoomClient::new(9);
    client.handle_input(SessionInput::NameLine(LineRead::Line(name("Hal"))), &mut registry);
    assert_eq!(client.state(), SessionState::Active);
    let actions = client.handle_input(SessionInput::WriteFailed, &mut registry);
    assert_eq!(
        actions,
        vec![
            SessionAction::Unsubscribe,
            SessionAction::Publish(ChatEvent { origin: 9, text: name("* Hal has left the room") }),
            SessionAction::Close,
        ]
    );
    assert_eq!(client.state(), SessionState::Terminated);
    assert_eq!(registry.len(), 0);
    assert!(client.handle_input(SessionInput::BusClosed, &mut registry).is_empty());
}

#[test]
fn bad_handshakes_close_quietly() {
    let mut registry = ParticipantRegistry::new();
    for line in ["", " ", "a+b", "abcdefghijklmnopq"] {
        let mut client = ChatRoomClient::new(1);
        let actions = client.handle_input(SessionInput::NameLine(LineRead::Line(name(line))), &mut registry);
        assert_eq!(actions, vec![SessionAction::Close]);
        assert_eq!(client.state(), SessionState::Terminated);
    }
    let mut client = ChatRoomClient::new(2);
    assert_eq!(
        client.handle_input(SessionInput::NameLine(LineRead::Closed), &mut registry),
        vec![SessionAction::Close]
    );
    assert_eq!(registry.len(), 0);
}

#[test]
fn end_to_end_scenario() {
    let mut room = Room::new();
    let a = room.connect();
    assert_eq!(room.last(a), "Welcome to budgetchat! What shall I call you?");
    room.submit(a, "Alice");
    assert_eq!(room.last(a), "* The room contains: -");

    let b = room.connect();
    room.submit(b, "Bob");
    assert_eq!(room.last(b), "* The room contains: Alice");
    assert_eq!(room.last(a), "* Bob has entered the room");

    let b_seen = room.received[b].len();
    room.submit(b, "hi");
    assert_eq!(room.last(a), "[Bob] hi");
    assert_eq!(room.received[b].len(), b_seen);

    room.input(b, SessionInput::PeerLine(LineRead::Closed));
    assert!(room.closed[b]);
    assert_eq!(room.last(a), "* Bob has left the room");

    let c = room.connect();
    room.submit(c, "Bob");
    assert_eq!(room.last(c), "* The room contains: Alice");
    assert_eq!(room.sessions[c].state(), SessionState::Active);
}

#[test]
fn duplicate_name_scenario() {
    let mut room = Room::new();
    let a = room.connect();
    room.submit(a, "Carol");
    let a_seen = room.received[a].len();

    let b = room.connect();
    room.submit(b, "Carol");
    assert!(room.closed[b]);
    assert_eq!(room.received[b], vec![name("Welcome to budgetchat! What shall I call you?")]);
    assert_eq!(room.received[a].len(), a_seen);
    assert_eq!(room.registry.len(), 1);
}
