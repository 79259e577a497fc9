use rillet_core::hello;
use rillet_core::macros::case::{fragment_of, to_pascal_case, to_snake_case};

#[test]
fn hello_works() {
    assert_eq!(hello(), "rillet");
}

#[test]
fn snake_case_splits_camel_words() {
    assert_eq!(to_snake_case("MessageSent"), "message_sent");
    assert_eq!(to_snake_case("Chirp"), "chirp");
    assert_eq!(to_snake_case("already_snake"), "already_snake");
}

#[test]
fn snake_case_keeps_acronym_runs_together() {
    assert_eq!(to_snake_case("HTTPServer"), "http_server");
    assert_eq!(to_snake_case("PeerID"), "peer_id");
    assert_eq!(to_snake_case("IOError"), "io_error");
    assert_eq!(to_snake_case("HTTP"), "http");
}

#[test]
fn snake_case_splits_after_digits() {
    assert_eq!(to_snake_case("Layer2Started"), "layer2_started");
}

#[test]
fn pascal_case_joins_snake_words() {
    assert_eq!(to_pascal_case("send_message"), "SendMessage");
    assert_eq!(to_pascal_case("tick"), "Tick");
}

#[test]
fn snake_case_undoes_pascal_case() {
    for name in ["tick", "send_message", "layer2_started", "ab_c1_de23f"] {
        assert_eq!(to_snake_case(&to_pascal_case(name)), name);
    }
    // Words of one letter become one run of capitals.
    assert_eq!(to_snake_case(&to_pascal_case("a_b")), "ab");
}

#[test]
fn snake_case_of_nothing_is_nothing() {
    assert_eq!(to_snake_case(""), "");
    assert_eq!(to_snake_case("A"), "a");
    assert_eq!(to_snake_case("AB"), "ab");
    assert_eq!(to_snake_case("A_B"), "a_b");
}

#[test]
fn snake_case_lowers_letters_beyond_ascii() {
    assert_eq!(to_snake_case("GrößeÄndern"), "größe_ändern");
}

#[test]
fn pascal_case_drops_every_underscore() {
    assert_eq!(to_pascal_case(""), "");
    assert_eq!(to_pascal_case("_"), "");
    assert_eq!(to_pascal_case("_lead__two_"), "LeadTwo");
    assert_eq!(to_pascal_case("keepsCamel"), "KeepsCamel");
}

#[test]
fn pascal_case_raises_letters_beyond_ascii() {
    assert_eq!(to_pascal_case("straße_ßein"), "StraßeSSein");
}

#[test]
fn fragments_have_no_raw_marker() {
    assert_eq!(fragment_of("r#type"), "type");
    assert_eq!(fragment_of("kind"), "kind");
}
