use sms_webhook::auth::GlobalConfig;
use sms_webhook::handler::{handle_request, record_incoming_message, RequestMethod};
use sms_webhook::handler::stored_value;
use sms_webhook::reply::{store_reply, HttpReply, Outcome};

fn config(secret: &str) -> GlobalConfig {
    GlobalConfig { token: Some(secret.to_string()) }
}

fn expect_reply(o: Outcome) -> HttpReply {
    match o {
        Outcome::Reply(r) => r,
        Outcome::Store { .. } => panic!("expected a reply, got a store write"),
    }
}

fn expect_store(o: Outcome) -> (String, String) {
    match o {
        Outcome::Store { key, value } => (key, value),
        Outcome::Reply(r) => panic!("expected a store write, got status {}", r.status),
    }
}

#[test]
fn valid_post_with_correct_token_stores_and_replies_xml() {
    let cfg = config("SECRET");
    let o = handle_request(
        RequestMethod::Post,
        "/incoming",
        b"token=SECRET",
        b"MessageSid=SM123&From=%2B1555&To=%2B1777&Body=Hi",
        &cfg,
    );
    let (key, value) = expect_store(o);
    assert_eq!(key, "SM123");
    assert_eq!(value, "From: +1555 Body: Hi");

    let r = store_reply(true);
    assert_eq!(r.status, 200);
    assert_eq!(r.content_type.as_deref(), Some("text/xml"));
    assert_eq!(
        r.body,
        "<?xml version=\"1.0\" encoding=\"UTF-8\"?><Response><Message></Message></Response>"
    );
}

#[test]
fn wrong_token_is_unauthorized_and_stores_nothing() {
    let cfg = config("SECRET");
    let o = handle_request(
        RequestMethod::Post,
        "/incoming",
        b"token=WRONG",
        b"MessageSid=SM123&From=%2B1555&To=%2B1777&Body=Hi",
        &cfg,
    );
    let r = expect_reply(o);
    assert_eq!(r.status, 401);
    assert_eq!(r.body, "");
    assert!(r.content_type.is_none());
}

#[test]
fn missing_token_is_unauthorized() {
    let cfg = config("SECRET");
    let o = record_incoming_message(b"", b"MessageSid=SM1&From=a&To=b&Body=c", &cfg);
    assert_eq!(expect_reply(o).status, 401);
}

#[test]
fn repeated_token_is_unauthorized() {
    let cfg = config("SECRET");
    let o = record_incoming_message(
        b"token=SECRET&token=SECRET",
        b"MessageSid=SM1&From=a&To=b&Body=c",
        &cfg,
    );
    assert_eq!(expect_reply(o).status, 401);
}

#[test]
fn token_prefix_is_unauthorized() {
    let cfg = config("SECRET");
    let o = record_incoming_message(b"token=SECRE", b"MessageSid=SM1&From=a&To=b&Body=c", &cfg);
    assert_eq!(expect_reply(o).status, 401);
}

#[test]
fn token_is_percent_decoded_before_comparison() {
    let cfg = config("a b+c");
    let o = record_incoming_message(b"token=a+b%2Bc", b"MessageSid=SM1&From=a&To=b&Body=c", &cfg);
    let (key, _) = expect_store(o);
    assert_eq!(key, "SM1");
}

#[test]
fn missing_body_field_is_bad_request() {
    let cfg = config("SECRET");
    let o = handle_request(
        RequestMethod::Post,
        "/incoming",
        b"token=SECRET",
        b"MessageSid=SM123&From=%2B1555&To=%2B1777",
        &cfg,
    );
    let r = expect_reply(o);
    assert_eq!(r.status, 400);
    assert_eq!(r.body, "");
}

#[test]
fn bad_form_beats_bad_token() {
    // A form that does not decode is 400 even when the token is wrong.
    let cfg = config("SECRET");
    let o = record_incoming_message(b"token=WRONG", b"From=a", &cfg);
    assert_eq!(expect_reply(o).status, 400);
}

#[test]
fn repeated_required_field_is_bad_request() {
    let cfg = config("SECRET");
    let o = record_incoming_message(
        b"token=SECRET",
        b"MessageSid=SM1&MessageSid=SM2&From=a&To=b&Body=c",
        &cfg,
    );
    assert_eq!(expect_reply(o).status, 400);
}

#[test]
fn repeated_optional_field_is_bad_request() {
    let cfg = config("SECRET");
    let o = record_incoming_message(
        b"token=SECRET",
        b"MessageSid=SM1&From=a&To=b&Body=c&NumMedia=0&NumMedia=1",
        &cfg,
    );
    assert_eq!(expect_reply(o).status, 400);
}

#[test]
fn empty_form_is_bad_request() {
    let cfg = config("SECRET");
    let o = record_incoming_message(b"token=SECRET", b"", &cfg);
    assert_eq!(expect_reply(o).status, 400);
}

#[test]
fn store_failure_is_server_error() {
    let r = store_reply(false);
    assert_eq!(r.status, 500);
    assert_eq!(r.body, "");
    assert!(r.content_type.is_none());
}

#[test]
fn stored_value_has_exact_format() {
    assert_eq!(stored_value("+1555", "Hi"), "From: +1555 Body: Hi");
    assert_eq!(stored_value("", ""), "From:  Body: ");
}

#[test]
fn healthcheck_replies_hello() {
    let cfg = config("SECRET");
    let o = handle_request(RequestMethod::Get, "/healthcheck", b"", b"", &cfg);
    let r = expect_reply(o);
    assert_eq!(r.status, 200);
    assert_eq!(r.content_type.as_deref(), Some("text/plain"));
    assert_eq!(r.body, "Hello!");
}

#[test]
fn healthcheck_ignores_query_and_body() {
    let cfg = config("SECRET");
    let o = handle_request(
        RequestMethod::Get,
        "/healthcheck",
        b"token=WRONG&x=%ZZ",
        b"\xff\xfe",
        &cfg,
    );
    assert_eq!(expect_reply(o).status, 200);
}

#[test]
fn unmatched_routes_are_method_not_allowed() {
    let cfg = config("SECRET");
    for (m, p) in [
        (RequestMethod::Get, "/incoming"),
        (RequestMethod::Post, "/healthcheck"),
        (RequestMethod::Get, "/"),
        (RequestMethod::Other, "/incoming"),
        (RequestMethod::Post, "/incoming/"),
    ] {
        let o = handle_request(m, p, b"token=SECRET", b"MessageSid=1&From=a&To=b&Body=c", &cfg);
        let r = expect_reply(o);
        assert_eq!(r.status, 405);
        assert_eq!(r.body, "");
        assert!(r.content_type.is_none());
    }
}
