//! The server as a state machine: the store, and where the accept loop stands.
//!
//! The host owns the socket and the thread. It tells the server what happened
//! (`bound`, `bind_failed`, `receive`) and acts on what the server answers.

use vstd::prelude::*;
use vstd::string::*;
use vstd::utf8::*;
use crate::net::codec::{
    add_text,
    decode,
    decode_bytes,
    encode_quit,
    quit_bytes,
    Command,
    DecodeError,
    Message,
};
use crate::net::store::Store;
use crate::net::variant::{kind_of, value_text, Value, Variant};

verus! {

/// The address that a server listens on when none is given.
pub const IP: &'static str = "127.0.0.1";

/// The port that a server listens on when none is given.
pub const PORT: &'static str = "8720";

/// The socket address of a host and a port: the two with a colon between.
pub fn endpoint(ip: &str, port: &str) -> (address: String)
    ensures
        address@ == ip@ + seq![':'] + port@,
{
    proof {
        reveal_strlit(":");
    }
    let mut address = String::from_str(ip);
    address.append(":");
    address.append(port);
    proof {
        assert(address@ =~= ip@ + seq![':'] + port@);
    }
    address
}

/// Where the accept loop stands.
#[derive(Debug, Clone, Copy, PartialEq, Eq, Structural)]
pub enum Phase {
    /// The loop's thread is started and its socket is not bound yet.
    Starting,
    /// The loop accepts connections.
    Running,
    /// The loop has read the quit command and accepts nothing more.
    Stopping,
    /// The loop's thread has ended.
    Stopped,
}

/// Why the server could not do what was asked.
#[derive(Debug, Clone, Copy, PartialEq, Eq, Structural)]
pub enum ServerError {
    /// Nothing listens: the quit command cannot be delivered.
    NotListening,
    /// The loop has not read a quit command: waiting for it would not end.
    WouldBlock,
}

/// A server, as a mathematical value.
pub struct ServerState {
    pub store: Map<Seq<char>, Value>,
    pub phase: Phase,
}

/// What the accept loop does after a message, as a mathematical value.
pub enum Outcome {
    /// The message's value is stored.
    Stored,
    /// The message holds a float as text: the host reads the text and hands
    /// the number in.
    FloatPending { name: Seq<char>, text: Seq<char> },
    /// The loop ends.
    Quit,
    /// Nothing was asked.
    Ignored,
    /// The message was dropped.
    Rejected(DecodeError),
    /// The loop does not run: no message can arrive.
    NotListening,
}

/// What the accept loop does after a message.
#[derive(Debug)]
pub enum Reply {
    /// The message's value is stored.
    Stored,
    /// The message holds a float as text: the host reads the text and hands
    /// the number in with [`Server::add_float`].
    FloatPending { name: String, text: String },
    /// The loop ends.
    Quit,
    /// Nothing was asked.
    Ignored,
    /// The message was dropped.
    Rejected(DecodeError),
    /// The loop does not run: no message can arrive.
    NotListening,
}

impl View for Reply {
    type V = Outcome;

    open spec fn view(&self) -> Outcome {
        match self {
            Reply::Stored => Outcome::Stored,
            Reply::FloatPending { name, text } => Outcome::FloatPending {
                name: name@,
                text: text@,
            },
            Reply::Quit => Outcome::Quit,
            Reply::Ignored => Outcome::Ignored,
            Reply::Rejected(e) => Outcome::Rejected(*e),
            Reply::NotListening => Outcome::NotListening,
        }
    }
}

/// The server once started: an empty store, and a loop that is not bound yet.
pub open spec fn started() -> ServerState {
    ServerState { store: Map::empty(), phase: Phase::Starting }
}

/// The server after its socket is bound.
pub open spec fn bound(s: ServerState) -> ServerState {
    if s.phase == Phase::Starting {
        ServerState { phase: Phase::Running, ..s }
    } else {
        s
    }
}

/// The server after its socket could not be bound.
pub open spec fn unbound(s: ServerState) -> ServerState {
    if s.phase == Phase::Starting {
        ServerState { phase: Phase::Stopped, ..s }
    } else {
        s
    }
}

/// The server after `value` is stored under `name`.
pub open spec fn added(s: ServerState, name: Seq<char>, value: Value) -> ServerState {
    ServerState { store: s.store.insert(name, value), ..s }
}

/// The server after what is stored under `name` is taken out.
pub open spec fn removed(s: ServerState, name: Seq<char>) -> ServerState {
    ServerState { store: s.store.remove(name), ..s }
}

/// What is stored under `name`.
pub open spec fn value_at(s: ServerState, name: Seq<char>) -> Option<Value> {
    if s.store.contains_key(name) {
        Some(s.store[name])
    } else {
        None
    }
}

/// The server after its accept loop has read `bytes` from one connection.
pub open spec fn received(s: ServerState, bytes: Seq<u8>) -> ServerState {
    if s.phase != Phase::Running {
        s
    } else {
        match decode_bytes(bytes) {
            Ok(Message::Add { name, value }) => added(s, name, value),
            Ok(Message::Quit) => ServerState { phase: Phase::Stopping, ..s },
            _ => s,
        }
    }
}

/// What the accept loop answers after it has read `bytes` from one connection.
pub open spec fn reply_to(s: ServerState, bytes: Seq<u8>) -> Outcome {
    if s.phase != Phase::Running {
        Outcome::NotListening
    } else {
        match decode_bytes(bytes) {
            Ok(Message::Add { name, value }) => Outcome::Stored,
            Ok(Message::AddFloat { name, text }) => Outcome::FloatPending { name, text },
            Ok(Message::Quit) => Outcome::Quit,
            Ok(Message::Ignored) => Outcome::Ignored,
            Err(e) => Outcome::Rejected(e),
        }
    }
}

/// The server after the host has read a pending float's text.
pub open spec fn float_added(s: ServerState, name: Seq<char>, bits: Option<u32>) -> ServerState {
    match bits {
        Some(b) => added(s, name, Value::Float(b)),
        None => s,
    }
}

/// Waiting for the loop's thread ends at once: the loop has read the quit
/// command, or has ended already.
pub open spec fn can_finalize(s: ServerState) -> bool {
    s.phase == Phase::Stopping || s.phase == Phase::Stopped
}

/// The server after the owner has waited for the loop's thread.
pub open spec fn finalized(s: ServerState) -> ServerState {
    if can_finalize(s) {
        ServerState { phase: Phase::Stopped, ..s }
    } else {
        s
    }
}

/// A store of named values and the accept loop that fills it from the wire.
pub struct Server {
    store: Store,
    phase: Phase,
}

impl View for Server {
    type V = ServerState;

    closed spec fn view(&self) -> ServerState {
        ServerState { store: self.store@, phase: self.phase }
    }
}

impl Server {
    /// Starts a server: its store is empty, and its loop is yet to bind its socket.
    pub fn start() -> (s: Self)
        ensures
            s@ == started(),
    {
        Server { store: Store::new(), phase: Phase::Starting }
    }

    /// Where the accept loop stands.
    pub fn phase(&self) -> (p: Phase)
        ensures
            p == self@.phase,
    {
        self.phase
    }

    /// The number of names stored.
    pub fn len(&self) -> (n: usize)
        ensures
            n == self@.store.dom().len(),
    {
        self.store.len()
    }

    /// The loop has bound its socket: a starting server runs. Returns whether
    /// the server was starting.
    pub fn bound(&mut self) -> (was_starting: bool)
        ensures
            final(self)@ == bound(old(self)@),
            was_starting == (old(self)@.phase == Phase::Starting),
    {
        match self.phase {
            Phase::Starting => {
                self.phase = Phase::Running;
                true
            },
            _ => false,
        }
    }

    /// The loop could not bind its socket: a starting server is stopped.
    /// Returns whether the server was starting.
    pub fn bind_failed(&mut self) -> (was_starting: bool)
        ensures
            final(self)@ == unbound(old(self)@),
            was_starting == (old(self)@.phase == Phase::Starting),
    {
        match self.phase {
            Phase::Starting => {
                self.phase = Phase::Stopped;
                true
            },
            _ => false,
        }
    }

    /// Stores `value` under `name`, in place of what was there.
    pub fn add(&mut self, name: &str, value: Variant)
        ensures
            final(self)@ == added(old(self)@, name@, value@),
    {
        self.store.add(name, value);
    }

    /// Takes out what is stored under `name` and returns it; `None`, and no
    /// change, where nothing is.
    pub fn remove(&mut self, name: &str) -> (r: Option<Variant>)
        ensures
            final(self)@ == removed(old(self)@, name@),
            match r {
                Some(v) => value_at(old(self)@, name@) == Some(v@),
                None => value_at(old(self)@, name@) is None && final(self)@ == old(self)@,
            },
    {
        let r = self.store.remove(name);
        proof {
            if r is None {
                assert(self@.store =~= old(self)@.store);
            }
        }
        r
    }

    /// A copy of what is stored under `name`; `None` where nothing is.
    pub fn get(&self, name: &str) -> (r: Option<Variant>)
        ensures
            match r {
                Some(v) => value_at(self@, name@) == Some(v@),
                None => value_at(self@, name@) is None,
            },
    {
        self.store.get(name)
    }

    /// The accept loop has read `bytes` from one connection, up to its close.
    /// A running server does what the message asks; any other server hears
    /// nothing.
    pub fn receive(&mut self, bytes: &[u8]) -> (r: Reply)
        ensures
            final(self)@ == received(old(self)@, bytes@),
            r@ == reply_to(old(self)@, bytes@),
    {
        match self.phase {
            Phase::Running => {},
            _ => {
                return Reply::NotListening;
            },
        }
        match decode(bytes) {
            Ok(Command::Add { name, value }) => {
                self.store.add(name.as_str(), value);
                Reply::Stored
            },
            Ok(Command::AddFloat { name, text }) => Reply::FloatPending { name, text },
            Ok(Command::Quit) => {
                self.phase = Phase::Stopping;
                Reply::Quit
            },
            Ok(Command::Ignored) => Reply::Ignored,
            Err(e) => Reply::Rejected(e),
        }
    }

    /// The host has read the text of a pending float: `Some` bit pattern is
    /// stored under `name`, `None` (the text is no number) is reported and
    /// changes nothing.
    pub fn add_float(&mut self, name: &str, bits: Option<u32>) -> (r: Result<(), DecodeError>)
        ensures
            final(self)@ == float_added(old(self)@, name@, bits),
            r == (if bits is Some {
                Ok::<(), DecodeError>(())
            } else {
                Err::<(), DecodeError>(DecodeError::InvalidFloat)
            }),
    {
        match bits {
            Some(b) => {
                self.store.add(name, Variant::Float(b));
                Ok(())
            },
            None => Err(DecodeError::InvalidFloat),
        }
    }

    /// The owner waits for the loop's thread. Where the loop has read the quit
    /// command the wait ends and the server is stopped. Where it has not, the
    /// wait would not end: nothing changes, and the owner is told so.
    pub fn finalize(&mut self) -> (r: Result<(), ServerError>)
        ensures
            final(self)@ == finalized(old(self)@),
            r == (if can_finalize(old(self)@) {
                Ok::<(), ServerError>(())
            } else {
                Err::<(), ServerError>(ServerError::WouldBlock)
            }),
    {
        match self.phase {
            Phase::Stopping | Phase::Stopped => {
                self.phase = Phase::Stopped;
                Ok(())
            },
            _ => Err(ServerError::WouldBlock),
        }
    }

    /// Sends the quit command to this server's own loop and waits for its
    /// thread. A running server ends stopped, with its store as it was. Any
    /// other server cannot be reached.
    pub fn quit(self) -> (r: Result<Server, ServerError>)
        ensures
            match r {
                Ok(done) => self@.phase == Phase::Running && done@ == finalized(
                    received(self@, quit_bytes()),
                ) && done@ == (ServerState { phase: Phase::Stopped, ..self@ }),
                Err(e) => self@.phase != Phase::Running && e == ServerError::NotListening,
            },
    {
        let mut server = self;
        match server.phase {
            Phase::Running => {},
            _ => {
                return Err(ServerError::NotListening);
            },
        }
        let message = encode_quit();
        proof {
            crate::net::codec::lemma_quit_round_trip();
        }
        let _ = server.receive(message.as_slice());
        let _ = server.finalize();
        Ok(server)
    }
}

/// Stores `value` under `name` in the server behind a lock. `None` stands for
/// a lock that could not be taken: then nothing is stored.
pub fn add_guarded(guard: Option<&mut Server>, name: &str, value: Variant)
    ensures
        match guard {
            Some(server) => final(server)@ == added(server@, name@, value@),
            None => true,
        },
{
    match guard {
        Some(server) => server.add(name, value),
        None => {},
    }
}

/// Takes out of the server behind a lock what is stored under `name`. `None`
/// stands for a lock that could not be taken: then nothing is taken out.
pub fn remove_guarded(guard: Option<&mut Server>, name: &str) -> (r: Option<Variant>)
    ensures
        match guard {
            Some(server) => final(server)@ == removed(server@, name@) && match r {
                Some(v) => value_at(server@, name@) == Some(v@),
                None => value_at(server@, name@) is None,
            },
            None => r is None,
        },
{
    match guard {
        Some(server) => server.remove(name),
        None => None,
    }
}

/// Looks `name` up in the server behind a lock. `None` stands for a lock that
/// could not be taken: then nothing is found.
pub fn get_guarded(guard: Option<&Server>, name: &str) -> (r: Option<Variant>)
    ensures
        match guard {
            Some(server) => match r {
                Some(v) => value_at(server@, name@) == Some(v@),
                None => value_at(server@, name@) is None,
            },
            None => r is None,
        },
{
    match guard {
        Some(server) => server.get(name),
        None => None,
    }
}

/// A value can travel as text and come back as it was: it is no float, and
/// neither its name nor, for a string, its text holds a colon.
pub open spec fn travels(name: Seq<char>, value: Value) -> bool {
    &&& !name.contains(':')
    &&& !(value is Float)
    &&& value matches Value::String(text) ==> !text.contains(':')
}

/// The bytes of the add command that sends `value` under `name`.
pub open spec fn add_bytes(name: Seq<char>, value: Value) -> Seq<u8> {
    encode_utf8(add_text(seq![kind_of(value)], name, value_text(value)->0))
}

/// A value stored directly is at once what a lookup of its name gives.
pub proof fn lemma_add_then_get(s: ServerState, name: Seq<char>, value: Value)
    ensures
        value_at(added(s, name, value), name) == Some(value),
{
}

/// Storing under one name leaves what is stored under every other name.
pub proof fn lemma_add_keeps_others(
    s: ServerState,
    name: Seq<char>,
    value: Value,
    other: Seq<char>,
)
    requires
        other != name,
    ensures
        value_at(added(s, name, value), other) == value_at(s, other),
{
}

/// Removing a name that is not stored changes nothing.
pub proof fn lemma_remove_absent(s: ServerState, name: Seq<char>)
    requires
        value_at(s, name) is None,
    ensures
        removed(s, name) == s,
{
    assert(s.store.remove(name) =~= s.store);
}

/// A value that a client sends to a running server is what a later lookup of
/// its name gives.
pub proof fn lemma_remote_add_then_get(s: ServerState, name: Seq<char>, value: Value)
    requires
        s.phase == Phase::Running,
        travels(name, value),
    ensures
        received(s, add_bytes(name, value)) == added(s, name, value),
        reply_to(s, add_bytes(name, value)) == Outcome::Stored,
        value_at(received(s, add_bytes(name, value)), name) == Some(value),
{
    crate::net::codec::lemma_add_round_trip(name, value);
}

/// Two values that clients send one after the other under different names
/// are both stored as they were sent.
pub proof fn lemma_remote_adds_keep_apart(
    s: ServerState,
    first: Seq<char>,
    a: Value,
    second: Seq<char>,
    b: Value,
)
    requires
        s.phase == Phase::Running,
        travels(first, a),
        travels(second, b),
        first != second,
    ensures
        value_at(received(received(s, add_bytes(first, a)), add_bytes(second, b)), first) == Some(
            a,
        ),
        value_at(received(received(s, add_bytes(first, a)), add_bytes(second, b)), second) == Some(
            b,
        ),
{
    lemma_remote_add_then_get(s, first, a);
    lemma_remote_add_then_get(added(s, first, a), second, b);
}

/// A message that begins with `q` ends the loop of a running server and
/// leaves its store; waiting for the loop's thread then ends at once, with
/// the server stopped.
pub proof fn lemma_quit_ends_loop(s: ServerState, bytes: Seq<u8>)
    requires
        s.phase == Phase::Running,
        valid_utf8(bytes),
        decode_utf8(bytes).len() > 0,
        decode_utf8(bytes)[0] == 'q',
    ensures
        reply_to(s, bytes) == Outcome::Quit,
        received(s, bytes) == (ServerState { phase: Phase::Stopping, ..s }),
        can_finalize(received(s, bytes)),
        finalized(received(s, bytes)) == (ServerState { phase: Phase::Stopped, ..s }),
{
}

/// The quit command ends the loop of a running server.
pub proof fn lemma_quit_command_ends_loop(s: ServerState)
    requires
        s.phase == Phase::Running,
    ensures
        received(s, quit_bytes()).phase == Phase::Stopping,
        can_finalize(received(s, quit_bytes())),
{
    crate::net::codec::lemma_quit_round_trip();
}

/// Until the loop has read a quit command, waiting for its thread would not end.
pub proof fn lemma_wait_needs_quit(s: ServerState)
    ensures
        can_finalize(s) <==> !(s.phase == Phase::Starting || s.phase == Phase::Running),
        !can_finalize(s) ==> finalized(s) == s,
{
}

} // verus!
