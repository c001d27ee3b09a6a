//! Request handling: routing, the protected endpoint, and the value that
//! is written to the key-value store.

use vstd::prelude::*;

use crate::auth::{authorized, check_token, GlobalConfig};
use crate::form::{bytes_eq, form_pairs, parse_form};
use crate::message::{
    field_chars, form_decodes, key_body, key_from, key_message_sid, message_from_pairs,
};
use crate::reply::{
    bad_request, default_handler, healthcheck, health_body, reply_is, unauthorized, HttpReply,
    Outcome,
};
use vstd::string::StringExecFns;
use vstd::utf8::{decode_utf8, encode_utf8, encode_utf8_decode_utf8};

verus! {

/// The request method, as far as routing cares: `GET`, `POST`, or
/// anything else.
#[derive(Clone, Copy, Debug)]
pub enum RequestMethod {
    Get,
    Post,
    Other,
}

/// The request is routed to the health endpoint.
pub open spec fn routes_to_healthcheck(method: RequestMethod, path: Seq<char>) -> bool {
    method is Get && path == "/healthcheck"@
}

/// The request is routed to the webhook endpoint.
pub open spec fn routes_to_incoming(method: RequestMethod, path: Seq<char>) -> bool {
    method is Post && path == "/incoming"@
}

/// The value stored for a message: `"From: {from} Body: {body}"`.
pub open spec fn stored_value_spec(from: Seq<char>, body: Seq<char>) -> Seq<char> {
    "From: "@ + from + " Body: "@ + body
}

/// Build the stored value `"From: {from} Body: {body}"`.
pub fn stored_value(from: &str, body: &str) -> (r: String)
    ensures
        r@ == stored_value_spec(from@, body@),
{
    let mut s: String = "From: ".to_owned();
    s.append(from);
    s.append(" Body: ");
    s.append(body);
    proof {
        assert(s@ =~= stored_value_spec(from@, body@));
    }
    s
}

/// Whether two strings hold the same characters.
fn str_eq(a: &str, b: &str) -> (r: bool)
    ensures
        r == (a@ == b@),
{
    let r = bytes_eq(a.as_bytes(), b.as_bytes());
    proof {
        broadcast use encode_utf8_decode_utf8;

        assert(decode_utf8(encode_utf8(a@)) == a@);
        assert(decode_utf8(encode_utf8(b@)) == b@);
    }
    r
}

/// Handle a `POST /incoming` request, given the raw query string and the
/// raw form body.
///
/// The form is decoded first: a form that does not decode is a bad
/// request, whatever the token says.  Then the token is checked in
/// constant time; without authorization nothing is stored and the caller
/// learns only `401`.  Only an authorized, well-formed request reaches
/// the store, with the submitted `MessageSid` as key and
/// `"From: {from} Body: {body}"` as value.
pub fn record_incoming_message(query: &[u8], body: &[u8], config: &GlobalConfig) -> (o: Outcome)
    requires
        config.token is Some,
    ensures
        !form_decodes(form_pairs(body@)) ==> (o matches Outcome::Reply(r) && reply_is(
            r,
            400,
            None::<Seq<char>>,
            Seq::<char>::empty(),
        )),
        form_decodes(form_pairs(body@)) && !authorized(form_pairs(query@), config.token->0@) ==> (
        o matches Outcome::Reply(r) && reply_is(r, 401, None::<Seq<char>>, Seq::<char>::empty())),
        form_decodes(form_pairs(body@)) && authorized(form_pairs(query@), config.token->0@) ==> (
        o matches Outcome::Store { key, value } && key@ == field_chars(
            form_pairs(body@),
            key_message_sid(),
        ) && value@ == stored_value_spec(
            field_chars(form_pairs(body@), key_from()),
            field_chars(form_pairs(body@), key_body()),
        )),
{
    let form = parse_form(body);
    match message_from_pairs(&form) {
        None => Outcome::Reply(bad_request()),
        Some(m) => {
            let query_pairs = parse_form(query);
            let secret: &String = config.token.as_ref().unwrap();
            if check_token(&query_pairs, secret) {
                let value = stored_value(m.from.as_str(), m.body.as_str());
                Outcome::Store { key: m.message_sid, value }
            } else {
                Outcome::Reply(unauthorized())
            }
        },
    }
}

/// Handle one HTTP request: route it, and decide the reply or the store
/// write.
///
/// `GET /healthcheck` is always `200 text/plain "Hello!"`, whatever the
/// query or body say; any route other than the two registered ones is
/// `405` with an empty body; `POST /incoming` is handled by
/// [`record_incoming_message`].
pub fn handle_request(
    method: RequestMethod,
    path: &str,
    query: &[u8],
    body: &[u8],
    config: &GlobalConfig,
) -> (o: Outcome)
    requires
        config.token is Some,
    ensures
        routes_to_healthcheck(method, path@) ==> (o matches Outcome::Reply(r) && reply_is(
            r,
            200,
            Some("text/plain"@),
            health_body(),
        )),
        !routes_to_healthcheck(method, path@) && !routes_to_incoming(method, path@) ==> (
        o matches Outcome::Reply(r) && reply_is(r, 405, None::<Seq<char>>, Seq::<char>::empty())),
        routes_to_incoming(method, path@) && !form_decodes(form_pairs(body@)) ==> (
        o matches Outcome::Reply(r) && reply_is(r, 400, None::<Seq<char>>, Seq::<char>::empty())),
        routes_to_incoming(method, path@) && form_decodes(form_pairs(body@)) && !authorized(
            form_pairs(query@),
            config.token->0@,
        ) ==> (o matches Outcome::Reply(r) && reply_is(
            r,
            401,
            None::<Seq<char>>,
            Seq::<char>::empty(),
        )),
        routes_to_incoming(method, path@) && form_decodes(form_pairs(body@)) && authorized(
            form_pairs(query@),
            config.token->0@,
        ) ==> (o matches Outcome::Store { key, value } && key@ == field_chars(
            form_pairs(body@),
            key_message_sid(),
        ) && value@ == stored_value_spec(
            field_chars(form_pairs(body@), key_from()),
            field_chars(form_pairs(body@), key_body()),
        )),
{
    let is_get = match method {
        RequestMethod::Get => true,
        _ => false,
    };
    let is_post = match method {
        RequestMethod::Post => true,
        _ => false,
    };
    if is_get && str_eq(path, "/healthcheck") {
        Outcome::Reply(healthcheck())
    } else if is_post && str_eq(path, "/incoming") {
        record_incoming_message(query, body, config)
    } else {
        Outcome::Reply(default_handler())
    }
}

} // verus!
