//! Identity of one connection: a fixed random id and a naming state that
//! goes from anonymous to registered once.
use vstd::prelude::*;

verus! {

/// Whether a connection has taken a display name yet.
pub enum ClientState {
    Anonymous,
    Registered { username: String },
}

/// Error type of `register`. Registration has no failing case, so
/// `register` always returns `Ok`.
#[derive(Debug, PartialEq, Eq, Structural)]
pub struct ClientError;

/// One connected peer. `id` holds the 128 bits of a version-4 UUID and
/// never changes; `addr` is the peer's address as text.
pub struct Client {
    pub id: u128,
    pub state: ClientState,
    pub addr: String,
}

/// The version field of a UUID held as a `u128`.
pub open spec fn uuid_version(id: u128) -> u128 {
    (id >> 76u128) & 0xfu128
}

/// The variant field of a UUID held as a `u128`.
pub open spec fn uuid_variant(id: u128) -> u128 {
    (id >> 62u128) & 0x3u128
}

/// Relies on uuid::Uuid::new_v4, read back with Uuid::as_u128: a fresh
/// random UUID whose version field is 4 and whose variant bits are `10`.
#[verifier::external_body]
fn random_uuid() -> (r: u128)
    ensures
        uuid_version(r) == 4,
        uuid_variant(r) == 2,
{
    uuid::Uuid::new_v4().as_u128()
}

impl ClientState {
    /// The name held, if any.
    pub open spec fn name_of(self) -> Option<Seq<char>> {
        match self {
            ClientState::Anonymous => None,
            ClientState::Registered { username } => Some(username@),
        }
    }
}

impl Client {
    /// The client's name, if it has one.
    pub open spec fn name(&self) -> Option<Seq<char>> {
        self.state.name_of()
    }

    /// An anonymous client connected from `addr`, with a new random id.
    pub fn new(addr: String) -> (r: Client)
        ensures
            r.name().is_none(),
            r.addr@ == addr@,
            uuid_version(r.id) == 4,
            uuid_variant(r.id) == 2,
    {
        Client { id: random_uuid(), state: ClientState::Anonymous, addr }
    }

    /// Gives an anonymous client the name `username`. A client that already
    /// has a name keeps it: a name is set once and never replaced.
    pub fn register(&mut self, username: String) -> (r: Result<(), ClientError>)
        ensures
            final(self).id == old(self).id,
            final(self).addr == old(self).addr,
            r is Ok,
            old(self).name().is_none() ==> final(self).name() == Some(username@),
            old(self).name().is_some() ==> final(self).name() == old(self).name(),
    {
        match self.state {
            ClientState::Anonymous => {
                self.state = ClientState::Registered { username };
                Ok(())
            },
            ClientState::Registered { .. } => Ok(()),
        }
    }

    /// The client's name as text, if it has one.
    pub fn username(&self) -> (r: Option<&String>)
        ensures
            match r {
                Some(u) => self.name() == Some(u@),
                None => self.name().is_none(),
            },
    {
        match &self.state {
            ClientState::Anonymous => None,
            ClientState::Registered { username } => Some(username),
        }
    }
}

} // verus!
