use enginekit::net::client::ServerConnection;
use enginekit::net::codec::{decode, decode_str, encode, encode_add, encode_quit, Command, DecodeError};
use enginekit::net::server::{
    add_guarded, endpoint, get_guarded, remove_guarded, Phase, Reply, Server, ServerError, IP, PORT,
};
use enginekit::net::store::Store;
use enginekit::net::text::{parse_bool, parse_i32, render_bool, render_i32};
use enginekit::net::variant::{float_bits_equal, Variant};

fn float(f: f32) -> Variant {
    Variant::Float(f.to_bits())
}

fn running() -> Server {
    let mut server = Server::start();
    assert!(server.bound());
    server
}

#[test]
fn server_get_add() {
    let mut server = running();

    server.add("Health", Variant::from(1i32));
    server.add("Magic", float(123f32));

    assert!(float(123f32) == server.get("Magic").unwrap());
    assert!(Variant::from(1i32) == server.get("Health").unwrap());

    {
        let mut c = ServerConnection::new();
        assert!(c.add("Armor", Variant::from(12)));
        assert!(matches!(server.receive(&c.close()), Reply::Stored));
    }

    assert!(float(123f32) == server.get("Magic").unwrap());
    assert!(Variant::from(1i32) == server.get("Health").unwrap());
    assert!(Variant::from(12i32) == server.get("Armor").unwrap());

    assert!(server.quit().is_ok());
}

#[test]
fn direct_add_is_visible_at_once() {
    let mut server = Server::start();
    server.add("Health", Variant::from(1i32));
    assert_eq!(server.get("Health"), Some(Variant::Int(1)));
    assert_eq!(server.len(), 1);
}

#[test]
fn add_overwrites() {
    let mut server = Server::start();
    server.add("Health", Variant::from(1i32));
    server.add("Health", Variant::from(true));
    assert_eq!(server.get("Health"), Some(Variant::Bool(true)));
    assert_eq!(server.len(), 1);
}

#[test]
fn remote_add_is_visible_to_get() {
    let mut server = running();
    let mut c = ServerConnection::new();
    assert!(c.add("Armor", Variant::from(12i32)));
    assert_eq!(c.bytes(), b"a:i:Armor:12");
    assert!(matches!(server.receive(c.bytes()), Reply::Stored));
    assert_eq!(server.get("Armor"), Some(Variant::Int(12)));
}

#[test]
fn remove_on_absent_key_is_none() {
    let mut server = Server::start();
    assert_eq!(server.remove("Nothing"), None);
    server.add("Health", Variant::from(1i32));
    assert_eq!(server.remove("Nothing"), None);
    assert_eq!(server.get("Health"), Some(Variant::Int(1)));
    assert_eq!(server.len(), 1);
}

#[test]
fn remove_returns_the_value_and_forgets_it() {
    let mut server = Server::start();
    server.add("a", Variant::from(1i32));
    server.add("b", Variant::from(2i32));
    server.add("c", Variant::from(3i32));
    assert_eq!(server.remove("b"), Some(Variant::Int(2)));
    assert_eq!(server.get("b"), None);
    assert_eq!(server.get("a"), Some(Variant::Int(1)));
    assert_eq!(server.get("c"), Some(Variant::Int(3)));
    assert_eq!(server.remove("b"), None);
    assert_eq!(server.len(), 2);
}

#[test]
fn sequential_remote_adds_keep_apart() {
    let mut server = running();
    let mut first = ServerConnection::new();
    first.add("Armor", Variant::from(12i32));
    let mut second = ServerConnection::new();
    second.add("Name", Variant::from(String::from("Link")));
    server.receive(&first.close());
    server.receive(&second.close());
    assert_eq!(server.get("Armor"), Some(Variant::Int(12)));
    assert_eq!(server.get("Name"), Some(Variant::String(String::from("Link"))));
}

#[test]
fn quit_ends_the_loop_and_finalize_returns() {
    let mut server = running();
    assert_eq!(server.finalize(), Err(ServerError::WouldBlock));
    assert_eq!(server.phase(), Phase::Running);
    let mut c = ServerConnection::new();
    c.quit();
    assert_eq!(c.bytes(), b"q");
    assert!(matches!(server.receive(c.bytes()), Reply::Quit));
    assert_eq!(server.phase(), Phase::Stopping);
    assert_eq!(server.finalize(), Ok(()));
    assert_eq!(server.phase(), Phase::Stopped);
    assert_eq!(server.finalize(), Ok(()));
}

#[test]
fn example_scenario() {
    let mut server = running();
    server.add("Magic", float(123.0f32));
    let mut c = ServerConnection::new();
    c.add("Armor", Variant::from(12));
    server.receive(&c.close());
    assert_eq!(server.get("Magic"), Some(float(123.0)));
    assert_eq!(server.get("Armor"), Some(Variant::Int(12)));
    let done = server.quit().unwrap();
    assert_eq!(done.phase(), Phase::Stopped);
    assert_eq!(done.get("Magic"), Some(float(123.0)));
    assert_eq!(done.get("Armor"), Some(Variant::Int(12)));
}

#[test]
fn lifecycle() {
    let mut server = Server::start();
    assert_eq!(server.phase(), Phase::Starting);
    assert!(matches!(server.receive(b"a:i:x:1"), Reply::NotListening));
    assert_eq!(server.get("x"), None);
    assert!(server.bound());
    assert!(!server.bound());
    assert_eq!(server.phase(), Phase::Running);
    assert!(!server.bind_failed());
    assert_eq!(server.phase(), Phase::Running);

    let mut failed = Server::start();
    assert!(failed.bind_failed());
    assert_eq!(failed.phase(), Phase::Stopped);
    assert_eq!(failed.finalize(), Ok(()));
    assert!(matches!(failed.quit(), Err(ServerError::NotListening)));

    let starting = Server::start();
    assert!(matches!(starting.quit(), Err(ServerError::NotListening)));
}

#[test]
fn messages_after_quit_are_not_heard() {
    let mut server = running();
    server.receive(b"quit");
    assert_eq!(server.phase(), Phase::Stopping);
    assert!(matches!(server.receive(b"a:i:x:1"), Reply::NotListening));
    assert_eq!(server.get("x"), None);
}

#[test]
fn float_is_handed_in_by_the_host() {
    let mut server = running();
    let mut c = ServerConnection::new();
    assert!(!c.add("Magic", float(1.5)));
    assert_eq!(c.bytes(), b"");
    c.add_text("f", "Magic", &1.5f32.to_string());
    assert_eq!(c.bytes(), b"a:f:Magic:1.5");
    match server.receive(c.bytes()) {
        Reply::FloatPending { name, text } => {
            assert_eq!(name, "Magic");
            assert_eq!(text, "1.5");
            let bits = text.parse::<f32>().ok().map(f32::to_bits);
            assert_eq!(server.add_float(&name, bits), Ok(()));
        }
        other => panic!("unexpected reply {:?}", other),
    }
    assert_eq!(server.get("Magic"), Some(float(1.5)));
    assert_eq!(server.add_float("Bad", None), Err(DecodeError::InvalidFloat));
    assert_eq!(server.get("Bad"), None);
}

#[test]
fn malformed_commands_are_rejected_and_change_nothing() {
    let mut server = running();
    assert!(matches!(server.receive(b"a:i:Foo:not_a_number"), Reply::Rejected(DecodeError::InvalidInt)));
    assert!(matches!(server.receive(b"a:b:Foo:yes"), Reply::Rejected(DecodeError::InvalidBool)));
    assert!(matches!(server.receive(b"a"), Reply::Rejected(DecodeError::MissingName)));
    assert!(matches!(server.receive(b"a:i"), Reply::Rejected(DecodeError::MissingName)));
    assert!(matches!(server.receive(b"a:i:Foo"), Reply::Rejected(DecodeError::MissingValue)));
    assert_eq!(server.len(), 0);
    assert_eq!(server.phase(), Phase::Running);
}

#[test]
fn unknown_messages_are_ignored() {
    let mut server = running();
    assert!(matches!(server.receive(b""), Reply::Ignored));
    assert!(matches!(server.receive(b"hello"), Reply::Ignored));
    assert!(matches!(server.receive(b"a:z:Foo:1"), Reply::Ignored));
    assert!(matches!(server.receive(b"a::Foo:1"), Reply::Ignored));
    assert!(matches!(server.receive(&[0x61, 0x3a, 0xff, 0x3a]), Reply::Ignored));
    assert_eq!(server.len(), 0);
}

#[test]
fn decode_reads_each_kind() {
    assert!(matches!(decode(b"a:i:n:-5"), Ok(Command::Add { name, value: Variant::Int(-5) }) if name == "n"));
    assert!(matches!(decode(b"a:b:n:true"), Ok(Command::Add { name, value: Variant::Bool(true) }) if name == "n"));
    assert!(matches!(decode(b"a:b:n:false"), Ok(Command::Add { name, value: Variant::Bool(false) }) if name == "n"));
    assert!(matches!(decode(b"a:s:n:text"), Ok(Command::Add { name, value: Variant::String(s) }) if name == "n" && s == "text"));
    assert!(matches!(decode(b"a:f:n:2.5"), Ok(Command::AddFloat { name, text }) if name == "n" && text == "2.5"));
    assert!(matches!(decode(b"q"), Ok(Command::Quit)));
    assert!(matches!(decode(b"quit now"), Ok(Command::Quit)));
    assert!(matches!(decode(b"x"), Ok(Command::Ignored)));
    assert!(matches!(decode_str("add:i:n:7"), Ok(Command::Add { name, value: Variant::Int(7) }) if name == "n"));
}

#[test]
fn decode_cuts_the_value_at_a_colon() {
    assert!(matches!(decode(b"a:s:n:12:30"), Ok(Command::Add { name, value: Variant::String(s) }) if name == "n" && s == "12"));
    assert!(matches!(decode(b"a:i:n:5:extra"), Ok(Command::Add { name, value: Variant::Int(5) }) if name == "n"));
    assert!(matches!(decode(b"a:s:n:"), Ok(Command::Add { name, value: Variant::String(s) }) if name == "n" && s.is_empty()));
    assert!(matches!(decode(b"a:s::v"), Ok(Command::Add { name, value: Variant::String(s) }) if name.is_empty() && s == "v"));
}

#[test]
fn decode_keeps_text_that_is_not_ascii() {
    let bytes = encode("h\u{e9}ros", &Variant::from(String::from("\u{1f600} ok"))).unwrap();
    assert_eq!(bytes, "a:s:h\u{e9}ros:\u{1f600} ok".as_bytes());
    assert!(matches!(decode(&bytes), Ok(Command::Add { name, value: Variant::String(s) }) if name == "h\u{e9}ros" && s == "\u{1f600} ok"));
}

#[test]
fn encode_then_decode_gives_the_value_back() {
    let values = vec![
        Variant::Int(0),
        Variant::Int(-1),
        Variant::Int(i32::MAX),
        Variant::Int(i32::MIN),
        Variant::Bool(true),
        Variant::Bool(false),
        Variant::String(String::new()),
        Variant::String(String::from("a b c")),
    ];
    for v in values {
        let bytes = encode("key", &v).unwrap();
        match decode(&bytes) {
            Ok(Command::Add { name, value }) => {
                assert_eq!(name, "key");
                assert_eq!(value, v);
            }
            other => panic!("unexpected {:?}", other),
        }
    }
    assert_eq!(encode("key", &float(1.0)), None);
}

#[test]
fn encode_writes_the_wire_format() {
    assert_eq!(encode("Armor", &Variant::Int(12)).unwrap(), b"a:i:Armor:12");
    assert_eq!(encode("On", &Variant::Bool(true)).unwrap(), b"a:b:On:true");
    assert_eq!(encode("Name", &Variant::String(String::from("Link"))).unwrap(), b"a:s:Name:Link");
    assert_eq!(encode_add("f", "Magic", "123"), b"a:f:Magic:123");
    assert_eq!(encode_quit(), b"q");
}

#[test]
fn two_commands_on_one_connection_are_one_message() {
    let mut c = ServerConnection::new();
    c.add("A", Variant::Int(1));
    c.add("B", Variant::Int(2));
    assert_eq!(c.bytes(), b"a:i:A:1a:i:B:2");
    assert!(matches!(decode(c.bytes()), Err(DecodeError::InvalidInt)));
}

#[test]
fn variant_kind_and_size() {
    assert_eq!(Variant::Int(1).kind(), "i");
    assert_eq!(float(1.0).kind(), "f");
    assert_eq!(Variant::Bool(true).kind(), "b");
    assert_eq!(Variant::String(String::new()).kind(), "s");
    assert_eq!(Variant::Int(1).size(), 4);
    assert_eq!(float(1.0).size(), std::mem::size_of::<f32>());
    assert_eq!(Variant::Bool(true).size(), 1);
    assert_eq!(Variant::String(String::from("long text")).size(), std::mem::size_of::<String>());
}

#[test]
fn variant_text() {
    assert_eq!(Variant::Int(-12).to_text(), Some((-12i32).to_string()));
    assert_eq!(Variant::Bool(true).to_text(), Some(true.to_string()));
    assert_eq!(Variant::String(String::from("x:y")).to_text(), Some(String::from("x:y")));
    assert_eq!(float(1.0).to_text(), None);
}

#[test]
fn variant_equality_is_by_kind_and_payload() {
    assert_eq!(Variant::Int(1), Variant::Int(1));
    assert_ne!(Variant::Int(1), Variant::Int(2));
    assert_ne!(Variant::Int(1), Variant::Bool(true));
    assert_ne!(Variant::Int(1), float(1.0));
    assert_eq!(Variant::String(String::from("a")), Variant::String(String::from("a")));
    assert_ne!(Variant::String(String::from("a")), Variant::String(String::from("b")));
    assert_eq!(Variant::Int(7).clone(), Variant::Int(7));
    assert_eq!(Variant::from(String::from("s")).clone(), Variant::String(String::from("s")));
}

#[test]
fn float_equality_is_that_of_numbers() {
    let samples = [
        0.0f32,
        -0.0,
        1.0,
        -1.0,
        123.0,
        f32::MIN_POSITIVE,
        f32::MAX,
        f32::MIN,
        f32::INFINITY,
        f32::NEG_INFINITY,
        f32::NAN,
        -f32::NAN,
        f32::EPSILON,
        1.0e-45,
    ];
    for a in samples {
        for b in samples {
            assert_eq!(float_bits_equal(a.to_bits(), b.to_bits()), a == b, "{} {}", a, b);
            assert_eq!(float(a) == float(b), a == b);
        }
    }
}

#[test]
fn integer_text_is_that_of_std() {
    let samples = [0, 1, -1, 9, 10, -10, 99, 100, 12345, -12345, i32::MAX, i32::MIN, i32::MAX - 1, i32::MIN + 1];
    for i in samples {
        assert_eq!(render_i32(i), i.to_string());
        assert_eq!(parse_i32(&i.to_string()), Some(i));
    }
}

#[test]
fn integer_parsing_is_that_of_std() {
    let samples = [
        "", "+", "-", "0", "-0", "+0", "007", "+7", "-7", "--7", "+-7", "7-", " 7", "7 ", "1_000", "0x10",
        "2147483647", "2147483648", "-2147483648", "-2147483649", "+2147483647", "+2147483648",
        "00000000000000000000002147483647", "99999999999999999999999999", "-99999999999999999999999999",
        "12a", "a12", "1.0", "\u{661}", "\u{ff11}", "not_a_number",
    ];
    for s in samples {
        assert_eq!(parse_i32(s), s.parse::<i32>().ok(), "{:?}", s);
    }
}

#[test]
fn boolean_text_is_that_of_std() {
    assert_eq!(render_bool(true), true.to_string());
    assert_eq!(render_bool(false), false.to_string());
    for s in ["true", "false", "", "True", "TRUE", "1", "0", "yes", "true ", " false", "tru", "falsee"] {
        assert_eq!(parse_bool(s), s.parse::<bool>().ok(), "{:?}", s);
    }
}

#[test]
fn store_holds_each_name_once() {
    let mut store = Store::new();
    assert_eq!(store.len(), 0);
    assert_eq!(store.get("a"), None);
    store.add("a", Variant::Int(1));
    store.add("b", Variant::Int(2));
    store.add("a", Variant::Int(3));
    assert_eq!(store.len(), 2);
    assert_eq!(store.get("a"), Some(Variant::Int(3)));
    assert_eq!(store.get("b"), Some(Variant::Int(2)));
    assert_eq!(store.remove("a"), Some(Variant::Int(3)));
    assert_eq!(store.remove("a"), None);
    assert_eq!(store.len(), 1);
}

#[test]
fn a_lock_that_cannot_be_taken_yields_nothing() {
    let mut server = Server::start();
    add_guarded(Some(&mut server), "Health", Variant::Int(1));
    assert_eq!(get_guarded(Some(&server), "Health"), Some(Variant::Int(1)));
    add_guarded(None, "Magic", Variant::Int(2));
    assert_eq!(get_guarded(None, "Health"), None);
    assert_eq!(remove_guarded(None, "Health"), None);
    assert_eq!(server.get("Health"), Some(Variant::Int(1)));
    assert_eq!(server.get("Magic"), None);
    assert_eq!(remove_guarded(Some(&mut server), "Health"), Some(Variant::Int(1)));
    assert_eq!(server.len(), 0);
}

#[test]
fn endpoint_joins_host_and_port() {
    assert_eq!(endpoint("localhost", "80"), "localhost:80");
    assert_eq!(endpoint(IP, PORT), "127.0.0.1:8720");
}
