//! The client's side of one connection.

use vstd::prelude::*;
use vstd::utf8::*;
use crate::net::codec::{add_text, encode, encode_add, encode_quit, quit_bytes};
use crate::net::variant::{kind_of, value_text, Variant};

verus! {

/// One connection to a server, as the bytes written to it so far. The server
/// reads them as one message when the connection closes.
pub struct ServerConnection {
    written: Vec<u8>,
}

impl View for ServerConnection {
    type V = Seq<u8>;

    closed spec fn view(&self) -> Seq<u8> {
        self.written@
    }
}

impl ServerConnection {
    /// A connection on which nothing is written yet.
    pub fn new() -> (c: Self)
        ensures
            c@ == Seq::<u8>::empty(),
    {
        ServerConnection { written: Vec::new() }
    }

    /// Writes the command that stores `value` under `name`. Returns false, and
    /// writes nothing, for a float: its text is the host's to give, with
    /// [`ServerConnection::add_text`].
    pub fn add(&mut self, name: &str, value: Variant) -> (sent: bool)
        ensures
            sent == !(value@ is Float),
            sent ==> final(self)@ == old(self)@ + encode_utf8(
                add_text(seq![kind_of(value@)], name@, value_text(value@)->0),
            ),
            !sent ==> final(self)@ == old(self)@,
    {
        match encode(name, &value) {
            Some(mut bytes) => {
                self.written.append(&mut bytes);
                true
            },
            None => false,
        }
    }

    /// Writes the command that stores under `name` the value of the given kind
    /// whose text is `value`.
    pub fn add_text(&mut self, kind: &str, name: &str, value: &str)
        ensures
            final(self)@ == old(self)@ + encode_utf8(add_text(kind@, name@, value@)),
    {
        let mut bytes = encode_add(kind, name, value);
        self.written.append(&mut bytes);
    }

    /// Writes the quit command.
    pub fn quit(&mut self)
        ensures
            final(self)@ == old(self)@ + quit_bytes(),
    {
        let mut bytes = encode_quit();
        self.written.append(&mut bytes);
    }

    /// The bytes written so far.
    pub fn bytes(&self) -> (b: &[u8])
        ensures
            b@ == self@,
    {
        self.written.as_slice()
    }

    /// Closes the connection: the bytes that the server reads.
    pub fn close(self) -> (b: Vec<u8>)
        ensures
            b@ == self@,
    {
        self.written
    }
}

} // verus!
