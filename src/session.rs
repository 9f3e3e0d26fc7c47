//! One connection's lifecycle as a state machine: name negotiation, chat
//! relay, and a single teardown. The caller performs the I/O; each event it
//! observes is handed to `Session::step`, which answers with the actions to
//! perform.
use vstd::prelude::*;
use vstd::string::*;
use crate::client::Client;
use crate::registry::Registry;

verus! {

/// Where a session stands. No phase is entered twice.
#[derive(Clone, Copy, Debug, PartialEq, Eq, Structural)]
pub enum Phase {
    Negotiating,
    Active,
    Closed,
}

/// Something that happened on the connection.
pub enum Event {
    /// An inbound text frame.
    Text(String),
    /// An inbound frame that carries no text (ping, pong, binary).
    Control,
    /// The inbound stream closed or failed.
    StreamEnded,
    /// The outbound relay stopped: a write failed or the subscription broke.
    RelayEnded,
}

/// Something the caller must do, in the order given.
pub enum Action {
    /// Send this text to this connection only.
    Reply(String),
    /// Open this connection's subscription to the room.
    Subscribe,
    /// Send this line to every subscriber of the room.
    Publish(String),
}

/// `Event` as mathematics.
pub enum EventView {
    Text(Seq<char>),
    Control,
    StreamEnded,
    RelayEnded,
}

/// `Action` as mathematics.
pub enum ActionView {
    Reply(Seq<char>),
    Subscribe,
    Publish(Seq<char>),
}

impl View for Event {
    type V = EventView;

    open spec fn view(&self) -> EventView {
        match self {
            Event::Text(t) => EventView::Text(t@),
            Event::Control => EventView::Control,
            Event::StreamEnded => EventView::StreamEnded,
            Event::RelayEnded => EventView::RelayEnded,
        }
    }
}

impl View for Action {
    type V = ActionView;

    open spec fn view(&self) -> ActionView {
        match self {
            Action::Reply(t) => ActionView::Reply(t@),
            Action::Subscribe => ActionView::Subscribe,
            Action::Publish(t) => ActionView::Publish(t@),
        }
    }
}

/// A list of actions as mathematics.
pub open spec fn actions_view(v: Seq<Action>) -> Seq<ActionView> {
    Seq::new(v.len(), |i: int| v[i]@)
}

/// A session's phase and the name it holds.
pub struct SessionView {
    pub id: u128,
    pub phase: Phase,
    pub name: Option<Seq<char>>,
}

/// What one step does: the session after it, the claimed names after it,
/// the actions it asks for, and whether it gave a name back.
pub struct Outcome {
    pub session: SessionView,
    pub names: Set<Seq<char>>,
    pub actions: Seq<ActionView>,
    pub released: bool,
}

/// The notice sent to a connection whose chosen name is held by another.
pub const NAME_TAKEN: &'static str = "Username already taken";

pub open spec fn joined_line(name: Seq<char>) -> Seq<char> {
    name + " joined."@
}

pub open spec fn left_line(name: Seq<char>) -> Seq<char> {
    name + " left."@
}

pub open spec fn chat_line_of(name: Seq<char>, text: Seq<char>) -> Seq<char> {
    name + ": "@ + text
}

pub open spec fn is_end(e: EventView) -> bool {
    e is StreamEnded || e is RelayEnded
}

/// The transition of the session `s` on event `e`, with `names` claimed.
pub open spec fn next(s: SessionView, names: Set<Seq<char>>, e: EventView) -> Outcome {
    let same = Outcome { session: s, names, actions: Seq::empty(), released: false };
    match s.phase {
        Phase::Negotiating => match e {
            EventView::Text(n) => if names.contains(n) {
                Outcome { actions: seq![ActionView::Reply(NAME_TAKEN@)], ..same }
            } else {
                Outcome {
                    session: SessionView { phase: Phase::Active, name: Some(n), ..s },
                    names: names.insert(n),
                    actions: seq![ActionView::Subscribe, ActionView::Publish(joined_line(n))],
                    released: false,
                }
            },
            EventView::Control => same,
            _ => Outcome { session: SessionView { phase: Phase::Closed, ..s }, ..same },
        },
        Phase::Active => match e {
            EventView::Text(t) => Outcome {
                actions: seq![ActionView::Publish(chat_line_of(s.name.unwrap(), t))],
                ..same
            },
            EventView::Control => same,
            _ => Outcome {
                session: SessionView { phase: Phase::Closed, ..s },
                names: names.remove(s.name.unwrap()),
                actions: seq![ActionView::Publish(left_line(s.name.unwrap()))],
                released: true,
            },
        },
        Phase::Closed => same,
    }
}

/// The line published for `text` sent by `name`.
pub fn chat_line(name: &String, text: &String) -> (r: String)
    ensures
        r@ == chat_line_of(name@, text@),
{
    let mut r = name.clone();
    r.append(": ");
    r.append(text.as_str());
    r
}

/// The state of one connection.
pub struct Session {
    client: Client,
    phase: Phase,
}

impl View for Session {
    type V = SessionView;

    closed spec fn view(&self) -> SessionView {
        SessionView { id: self.client.id, phase: self.phase, name: self.client.name() }
    }
}

impl Session {
    /// A negotiating session holds no name; an active one holds one.
    pub open spec fn wf(&self) -> bool {
        &&& (self@.phase == Phase::Negotiating ==> self@.name.is_none())
        &&& (self@.phase == Phase::Active ==> self@.name.is_some())
    }

    /// A session for a freshly accepted, anonymous client.
    pub fn new(client: Client) -> (r: Session)
        requires
            client.name().is_none(),
        ensures
            r.wf(),
            r@ == (SessionView { id: client.id, phase: Phase::Negotiating, name: None }),
    {
        Session { client, phase: Phase::Negotiating }
    }

    /// The connection's identity.
    pub fn client(&self) -> (r: &Client)
        ensures
            r.id == self@.id,
            r.name() == self@.name,
    {
        &self.client
    }

    /// The current phase.
    pub fn phase(&self) -> (r: Phase)
        ensures
            r == self@.phase,
    {
        self.phase
    }

    /// Handles one event against the shared `registry` and returns the
    /// actions the caller must perform, in order.
    pub fn step(&mut self, registry: &mut Registry, event: Event) -> (r: Vec<Action>)
        requires
            old(self).wf(),
            old(registry).wf(),
        ensures
            final(self).wf(),
            final(registry).wf(),
            ({
                let o = next(old(self)@, old(registry)@, event@);
                &&& final(self)@ == o.session
                &&& final(registry)@ == o.names
                &&& actions_view(r@) == o.actions
                &&& r@.len() == o.actions.len()
            }),
    {
        let ghost o = next(self@, registry@, event@);
        let mut out: Vec<Action> = Vec::new();
        match self.phase {
            Phase::Negotiating => match event {
                Event::Text(name) => {
                    if registry.try_claim(name.as_str()) {
                        let mut joined = name.clone();
                        joined.append(" joined.");
                        let _ = self.client.register(name);
                        self.phase = Phase::Active;
                        out.push(Action::Subscribe);
                        out.push(Action::Publish(joined));
                    } else {
                        out.push(Action::Reply(String::from_str(NAME_TAKEN)));
                    }
                },
                Event::Control => {},
                _ => {
                    self.phase = Phase::Closed;
                },
            },
            Phase::Active => {
                let name = match self.client.username() {
                    Some(u) => u.clone(),
                    None => String::new(),
                };
                match event {
                    Event::Text(text) => {
                        out.push(Action::Publish(chat_line(&name, &text)));
                    },
                    Event::Control => {},
                    _ => {
                        let mut left = name.clone();
                        left.append(" left.");
                        self.phase = Phase::Closed;
                        registry.release(name.as_str());
                        out.push(Action::Publish(left));
                    },
                }
            },
            Phase::Closed => {},
        }
        assert(actions_view(out@) =~= o.actions);
        out
    }
}

} // verus!
