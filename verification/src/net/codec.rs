//! The wire format: one command per message, as colon-delimited text in UTF-8.
//!
//! `a:<kind>:<name>:<value>` adds a variable; a message that begins with `q`
//! ends the accept loop. Anything else is ignored. A field ends at the next
//! colon, so a value that holds a colon arrives cut off at it.

use vstd::prelude::*;
use vstd::string::*;
use vstd::utf8::*;
use crate::net::text::{bool_of_text, chars_of, i32_of_text, parse_bool, parse_i32, string_of};
use crate::net::variant::{kind_of, value_text, Value, Variant};

verus! {

/// Why a command was dropped.
#[derive(Debug, Clone, Copy, PartialEq, Eq, Structural)]
pub enum DecodeError {
    /// An add command ends before its name.
    MissingName,
    /// An add command ends before its value.
    MissingValue,
    /// The value of an `i` command is not a 32-bit decimal number.
    InvalidInt,
    /// The value of a `b` command is neither `true` nor `false`.
    InvalidBool,
    /// The value of an `f` command is not a number.
    InvalidFloat,
}

/// What a message asks for, as a mathematical value.
pub enum Message {
    /// Store `value` under `name`.
    Add { name: Seq<char>, value: Value },
    /// Store under `name` the float that `text` stands for.
    AddFloat { name: Seq<char>, text: Seq<char> },
    /// End the accept loop.
    Quit,
    /// Nothing.
    Ignored,
}

/// What a message asks for.
#[derive(Debug)]
pub enum Command {
    /// Store `value` under `name`.
    Add { name: String, value: Variant },
    /// Store under `name` the float that `text` stands for. The text is not
    /// read here: the host's float parser turns it into a bit pattern.
    AddFloat { name: String, text: String },
    /// End the accept loop.
    Quit,
    /// Nothing.
    Ignored,
}

impl View for Command {
    type V = Message;

    open spec fn view(&self) -> Message {
        match self {
            Command::Add { name, value } => Message::Add { name: name@, value: value@ },
            Command::AddFloat { name, text } => Message::AddFloat { name: name@, text: text@ },
            Command::Quit => Message::Quit,
            Command::Ignored => Message::Ignored,
        }
    }
}

/// Where the field that begins at `from` ends: at the next colon, or at the end of `s`.
pub open spec fn field_end(s: Seq<char>, from: int) -> int
    decreases s.len() - from,
{
    if from < 0 || from >= s.len() || s[from] == ':' {
        from
    } else {
        field_end(s, from + 1)
    }
}

/// Where the `k`-th colon-delimited field of `s` begins, if `s` has that many fields.
pub open spec fn field_start(s: Seq<char>, k: nat) -> Option<int>
    decreases k,
{
    if k == 0 {
        Some(0)
    } else {
        match field_start(s, (k - 1) as nat) {
            Some(b) => if field_end(s, b) < s.len() {
                Some(field_end(s, b) + 1)
            } else {
                None
            },
            None => None,
        }
    }
}

/// The `k`-th colon-delimited field of `s`, counted from zero.
pub open spec fn field(s: Seq<char>, k: nat) -> Option<Seq<char>> {
    match field_start(s, k) {
        Some(b) => Some(s.subrange(b, field_end(s, b))),
        None => None,
    }
}

/// The text of an add command.
pub open spec fn add_text(kind: Seq<char>, name: Seq<char>, value: Seq<char>) -> Seq<char> {
    seq!['a', ':'] + kind + seq![':'] + name + seq![':'] + value
}

/// What an add command with these fields asks for.
pub open spec fn typed(kind: Seq<char>, name: Seq<char>, value: Seq<char>) -> Result<
    Message,
    DecodeError,
> {
    if kind == seq!['i'] {
        match i32_of_text(value) {
            Some(i) => Ok(Message::Add { name, value: Value::Int(i) }),
            None => Err(DecodeError::InvalidInt),
        }
    } else if kind == seq!['f'] {
        Ok(Message::AddFloat { name, text: value })
    } else if kind == seq!['b'] {
        match bool_of_text(value) {
            Some(b) => Ok(Message::Add { name, value: Value::Bool(b) }),
            None => Err(DecodeError::InvalidBool),
        }
    } else if kind == seq!['s'] {
        Ok(Message::Add { name, value: Value::String(value) })
    } else {
        Ok(Message::Ignored)
    }
}

/// What a message's text asks for. A text that begins with `a` is an add
/// command: its first field is passed over, the next three are kind, name and
/// value, and what follows them is dropped. A text that begins with `q` is the
/// quit command.
pub open spec fn decode_text(s: Seq<char>) -> Result<Message, DecodeError> {
    if s.len() > 0 && s[0] == 'a' {
        if field(s, 2) is None {
            Err(DecodeError::MissingName)
        } else if field(s, 3) is None {
            Err(DecodeError::MissingValue)
        } else {
            typed(field(s, 1)->0, field(s, 2)->0, field(s, 3)->0)
        }
    } else if s.len() > 0 && s[0] == 'q' {
        Ok(Message::Quit)
    } else {
        Ok(Message::Ignored)
    }
}

/// What a message asks for. Bytes that are not UTF-8 ask for nothing.
pub open spec fn decode_bytes(bytes: Seq<u8>) -> Result<Message, DecodeError> {
    if valid_utf8(bytes) {
        decode_text(decode_utf8(bytes))
    } else {
        Ok(Message::Ignored)
    }
}

/// The bytes of the quit command.
pub open spec fn quit_bytes() -> Seq<u8> {
    seq![0x71u8]
}

/// A field ends at the first colon at or after its start.
pub proof fn lemma_field_end(s: Seq<char>, from: int, end: int)
    requires
        0 <= from <= end <= s.len(),
        forall|j: int| from <= j < end ==> s[j] != ':',
        end == s.len() || s[end] == ':',
    ensures
        field_end(s, from) == end,
    decreases end - from,
{
    if from < end {
        lemma_field_end(s, from + 1, end);
    }
}

/// A field ends within the text, at a colon or at the text's end, and holds no colon.
pub proof fn lemma_field_end_bounds(s: Seq<char>, from: int)
    requires
        0 <= from <= s.len(),
    ensures
        from <= field_end(s, from) <= s.len(),
        forall|j: int| from <= j < field_end(s, from) ==> s[j] != ':',
        field_end(s, from) == s.len() || s[field_end(s, from)] == ':',
    decreases s.len() - from,
{
    if from < s.len() && s[from] != ':' {
        lemma_field_end_bounds(s, from + 1);
    }
}

/// The fields of an add command's text are the fields it was made of: kind
/// and name as they are, where they hold no colon, and the value up to its
/// first colon.
pub proof fn lemma_add_text_fields(kind: Seq<char>, name: Seq<char>, value: Seq<char>)
    requires
        !kind.contains(':'),
        !name.contains(':'),
    ensures
        field(add_text(kind, name, value), 1) == Some(kind),
        field(add_text(kind, name, value), 2) == Some(name),
        field(add_text(kind, name, value), 3) == Some(value.subrange(0, field_end(value, 0))),
        decode_text(add_text(kind, name, value)) == typed(
            kind,
            name,
            value.subrange(0, field_end(value, 0)),
        ),
{
    let s = add_text(kind, name, value);
    let e0 = 1int;
    let e1: int = 2 + kind.len() as int;
    let e2: int = e1 + 1 + name.len() as int;
    let cut: int = field_end(value, 0);
    let e3: int = e2 + 1 + cut;
    lemma_field_end_bounds(value, 0);
    assert(s.len() == 4 + kind.len() + name.len() + value.len());
    assert(s[0] == 'a');
    assert(s[1] == ':');
    assert(s[e1] == ':');
    assert(s[e2] == ':');
    assert forall|j: int| e0 + 1 <= j < e1 implies s[j] != ':' by {
        assert(s[j] == kind[j - 2]);
        assert(kind.contains(kind[j - 2]));
    }
    assert forall|j: int| e1 + 1 <= j < e2 implies s[j] != ':' by {
        assert(s[j] == name[j - e1 - 1]);
        assert(name.contains(name[j - e1 - 1]));
    }
    assert forall|j: int| e2 + 1 <= j < e3 implies s[j] != ':' by {
        assert(s[j] == value[j - e2 - 1]);
    }
    if e3 < s.len() {
        assert(s[e3] == value[cut]);
    }
    lemma_field_end(s, 0, e0);
    lemma_field_end(s, e0 + 1, e1);
    lemma_field_end(s, e1 + 1, e2);
    lemma_field_end(s, e2 + 1, e3);
    reveal_with_fuel(field_start, 4);
    assert(s.subrange(e0 + 1, e1) =~= kind);
    assert(s.subrange(e1 + 1, e2) =~= name);
    assert(s.subrange(e2 + 1, e3) =~= value.subrange(0, cut));
}

/// A value without a colon is a field of its own.
pub proof fn lemma_whole_field(value: Seq<char>)
    requires
        !value.contains(':'),
    ensures
        value.subrange(0, field_end(value, 0)) == value,
{
    assert forall|j: int| 0 <= j < value.len() implies value[j] != ':' by {
        assert(value.contains(value[j]));
    }
    lemma_field_end(value, 0, value.len() as int);
    assert(value.subrange(0, value.len() as int) =~= value);
}

/// Sending a value and reading the message back gives the value that was
/// sent, under the name it was sent with: for every integer, boolean and
/// string, where neither the name nor the string holds a colon.
pub proof fn lemma_add_round_trip(name: Seq<char>, v: Value)
    requires
        !name.contains(':'),
        !(v is Float),
        v matches Value::String(s) ==> !s.contains(':'),
    ensures
        decode_bytes(encode_utf8(add_text(seq![kind_of(v)], name, value_text(v)->0))) == Ok::<
            Message,
            DecodeError,
        >(Message::Add { name, value: v }),
{
    let kind = seq![kind_of(v)];
    let value = value_text(v)->0;
    let s = add_text(kind, name, value);
    encode_utf8_valid_utf8(s);
    encode_utf8_decode_utf8(s);
    match v {
        Value::Int(i) => {
            crate::net::text::lemma_int_text_has_no_colon(i as int);
            crate::net::text::lemma_i32_text_round_trip(i);
        },
        Value::Bool(b) => {
            crate::net::text::lemma_bool_text_has_no_colon(b);
            crate::net::text::lemma_bool_text_round_trip(b);
        },
        _ => {},
    }
    lemma_whole_field(value);
    lemma_add_text_fields(kind, name, value);
    assert(seq!['i'] != seq!['b']) by {
        assert(seq!['i'][0] != seq!['b'][0]);
    }
    assert(seq!['i'] != seq!['s']) by {
        assert(seq!['i'][0] != seq!['s'][0]);
    }
    assert(seq!['b'] != seq!['s']) by {
        assert(seq!['b'][0] != seq!['s'][0]);
    }
    assert(seq!['f'] != seq!['b']) by {
        assert(seq!['f'][0] != seq!['b'][0]);
    }
    assert(seq!['f'] != seq!['s']) by {
        assert(seq!['f'][0] != seq!['s'][0]);
    }
}

/// A float sent as text arrives as that text, under the name it was sent
/// with, where neither holds a colon.
pub proof fn lemma_add_float_round_trip(name: Seq<char>, text: Seq<char>)
    requires
        !name.contains(':'),
        !text.contains(':'),
    ensures
        decode_bytes(encode_utf8(add_text(seq!['f'], name, text))) == Ok::<Message, DecodeError>(
            Message::AddFloat { name, text },
        ),
{
    let s = add_text(seq!['f'], name, text);
    encode_utf8_valid_utf8(s);
    encode_utf8_decode_utf8(s);
    lemma_whole_field(text);
    lemma_add_text_fields(seq!['f'], name, text);
    assert(seq!['f'] != seq!['i']) by {
        assert(seq!['f'][0] != seq!['i'][0]);
    }
}

/// The quit command is read as such.
pub proof fn lemma_quit_round_trip()
    ensures
        decode_bytes(quit_bytes()) == Ok::<Message, DecodeError>(Message::Quit),
{
    let s = seq!['q'];
    assert(encode_utf8(s) =~= quit_bytes()) by {
        reveal_with_fuel(encode_utf8, 2);
        assert(s.drop_first() =~= Seq::<char>::empty());
        assert(0x71u32 & 0x7F == 0x71u32) by (bit_vector);
    }
    encode_utf8_valid_utf8(s);
    encode_utf8_decode_utf8(s);
}

/// `core::str::from_utf8`: the bytes as text, where they are UTF-8; the text's
/// bytes are then the bytes given. `None` where they are not UTF-8.
#[verifier::external_body]
fn text_of_bytes(bytes: &[u8]) -> (r: Option<&str>)
    ensures
        match r {
            Some(s) => encode_utf8(s@) == bytes@,
            None => !valid_utf8(bytes@),
        },
{
    core::str::from_utf8(bytes).ok()
}

/// Where the field of `v` that begins at `from` ends.
fn find_field_end(v: &Vec<char>, from: usize) -> (end: usize)
    requires
        from <= v.len(),
    ensures
        end == field_end(v@, from as int),
        from <= end <= v.len(),
{
    let mut i: usize = from;
    while i < v.len() && v[i] != ':'
        invariant
            from <= i <= v.len(),
            forall|j: int| from <= j < i ==> v@[j] != ':',
        decreases v.len() - i,
    {
        i = i + 1;
    }
    proof {
        lemma_field_end(v@, from as int, i as int);
    }
    i
}

/// Whether `s` is the one character `c`.
fn is_char(s: &Vec<char>, from: usize, to: usize, c: char) -> (r: bool)
    requires
        from <= to <= s.len(),
    ensures
        r == (s@.subrange(from as int, to as int) == seq![c]),
{
    let r = to - from == 1 && s[from] == c;
    proof {
        let f = s@.subrange(from as int, to as int);
        if r {
            assert(f =~= seq![c]);
        } else if f == seq![c] {
            assert(f.len() == 1);
            assert(f[0] == c);
        }
    }
    r
}

/// Reads one message's text.
pub fn decode_str(text: &str) -> (r: Result<Command, DecodeError>)
    ensures
        match r {
            Ok(c) => decode_text(text@) == Ok::<Message, DecodeError>(c@),
            Err(e) => decode_text(text@) == Err::<Message, DecodeError>(e),
        },
{
    let v = chars_of(text);
    let n = v.len();
    if n == 0 {
        return Ok(Command::Ignored);
    }
    if v[0] == 'q' {
        return Ok(Command::Quit);
    }
    if v[0] != 'a' {
        return Ok(Command::Ignored);
    }
    let ghost s = v@;
    proof {
        reveal_with_fuel(field_start, 4);
    }
    let e0 = find_field_end(&v, 0);
    if e0 == n {
        return Err(DecodeError::MissingName);
    }
    let e1 = find_field_end(&v, e0 + 1);
    if e1 == n {
        return Err(DecodeError::MissingName);
    }
    let e2 = find_field_end(&v, e1 + 1);
    if e2 == n {
        return Err(DecodeError::MissingValue);
    }
    let e3 = find_field_end(&v, e2 + 1);
    proof {
        assert(field(s, 1) == Some(s.subrange(e0 + 1, e1 as int)));
        assert(field(s, 2) == Some(s.subrange(e1 + 1, e2 as int)));
        assert(field(s, 3) == Some(s.subrange(e2 + 1, e3 as int)));
    }
    if is_char(&v, e0 + 1, e1, 'i') {
        let value = string_of(&v, e2 + 1, e3);
        match parse_i32(value.as_str()) {
            Some(i) => Ok(Command::Add { name: string_of(&v, e1 + 1, e2), value: Variant::Int(i) }),
            None => Err(DecodeError::InvalidInt),
        }
    } else if is_char(&v, e0 + 1, e1, 'f') {
        Ok(Command::AddFloat { name: string_of(&v, e1 + 1, e2), text: string_of(&v, e2 + 1, e3) })
    } else if is_char(&v, e0 + 1, e1, 'b') {
        let value = string_of(&v, e2 + 1, e3);
        match parse_bool(value.as_str()) {
            Some(b) => Ok(
                Command::Add { name: string_of(&v, e1 + 1, e2), value: Variant::Bool(b) },
            ),
            None => Err(DecodeError::InvalidBool),
        }
    } else if is_char(&v, e0 + 1, e1, 's') {
        Ok(
            Command::Add {
                name: string_of(&v, e1 + 1, e2),
                value: Variant::String(string_of(&v, e2 + 1, e3)),
            },
        )
    } else {
        Ok(Command::Ignored)
    }
}

/// Reads one message. Bytes that are not UTF-8 ask for nothing.
pub fn decode(bytes: &[u8]) -> (r: Result<Command, DecodeError>)
    ensures
        match r {
            Ok(c) => decode_bytes(bytes@) == Ok::<Message, DecodeError>(c@),
            Err(e) => decode_bytes(bytes@) == Err::<Message, DecodeError>(e),
        },
{
    match text_of_bytes(bytes) {
        Some(text) => {
            proof {
                encode_utf8_valid_utf8(text@);
                encode_utf8_decode_utf8(text@);
            }
            decode_str(text)
        },
        None => Ok(Command::Ignored),
    }
}

/// The bytes of an add command with the given fields.
pub fn encode_add(kind: &str, name: &str, value: &str) -> (bytes: Vec<u8>)
    ensures
        bytes@ == encode_utf8(add_text(kind@, name@, value@)),
{
    proof {
        reveal_strlit("a:");
        reveal_strlit(":");
    }
    let mut s = String::from_str("a:");
    s.append(kind);
    s.append(":");
    s.append(name);
    s.append(":");
    s.append(value);
    proof {
        assert(s@ =~= add_text(kind@, name@, value@));
    }
    s.as_str().as_bytes_vec()
}

/// The bytes of the add command that sends `value` under `name`. `None` for a
/// float: send it with [`encode_add`] and the host's text of the number.
pub fn encode(name: &str, value: &Variant) -> (r: Option<Vec<u8>>)
    ensures
        match r {
            Some(bytes) => value_text(value@) is Some && bytes@ == encode_utf8(
                add_text(seq![kind_of(value@)], name@, value_text(value@)->0),
            ),
            None => value@ is Float,
        },
{
    match value.to_text() {
        Some(text) => Some(encode_add(value.kind(), name, text.as_str())),
        None => None,
    }
}

/// The bytes of the quit command.
pub fn encode_quit() -> (bytes: Vec<u8>)
    ensures
        bytes@ == quit_bytes(),
{
    let mut bytes: Vec<u8> = Vec::new();
    bytes.push(0x71u8);
    proof {
        assert(bytes@ =~= quit_bytes());
    }
    bytes
}

} // verus!
