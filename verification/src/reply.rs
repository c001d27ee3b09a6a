//! The HTTP replies the receiver can give, and the outcome of a request.

use vstd::prelude::*;

verus! {

/// One HTTP reply: a status code, an optional content type, and a body.
#[derive(Clone, Debug)]
pub struct HttpReply {
    pub status: u16,
    pub content_type: Option<String>,
    pub body: String,
}

/// What handling a request asks of the surrounding binary: either send a
/// reply as it stands, or first write `value` under `key` to the
/// key-value store and then reply according to the write's outcome.
#[derive(Clone, Debug)]
pub enum Outcome {
    Reply(HttpReply),
    Store { key: String, value: String },
}

/// The reply has the given status, content type and body.
pub open spec fn reply_is(
    r: HttpReply,
    status: int,
    content_type: Option<Seq<char>>,
    body: Seq<char>,
) -> bool {
    &&& r.status == status
    &&& r.body@ == body
    &&& match (r.content_type, content_type) {
        (Some(a), Some(c)) => a@ == c,
        (None, None) => true,
        _ => false,
    }
}

/// The fixed reply body the webhook caller expects on success.
pub open spec fn twiml_body() -> Seq<char> {
    "<?xml version=\"1.0\" encoding=\"UTF-8\"?><Response><Message></Message></Response>"@
}

/// The health endpoint's greeting.
pub open spec fn health_body() -> Seq<char> {
    "Hello!"@
}

/// The health endpoint's reply: `200`, `text/plain`, `"Hello!"`.
pub fn healthcheck() -> (r: HttpReply)
    ensures
        reply_is(r, 200, Some("text/plain"@), health_body()),
{
    HttpReply { status: 200, content_type: Some("text/plain".to_owned()), body: "Hello!".to_owned() }
}

/// The reply to any unmatched route or method: `405`, empty body.
pub fn default_handler() -> (r: HttpReply)
    ensures
        reply_is(r, 405, None::<Seq<char>>, Seq::<char>::empty()),
{
    HttpReply { status: 405, content_type: None, body: String::new() }
}

/// The reply to a form that does not decode: `400`, empty body.
pub fn bad_request() -> (r: HttpReply)
    ensures
        reply_is(r, 400, None::<Seq<char>>, Seq::<char>::empty()),
{
    HttpReply { status: 400, content_type: None, body: String::new() }
}

/// The reply to a missing or mismatched token: `401`, empty body.
pub fn unauthorized() -> (r: HttpReply)
    ensures
        reply_is(r, 401, None::<Seq<char>>, Seq::<char>::empty()),
{
    HttpReply { status: 401, content_type: None, body: String::new() }
}

/// The reply once the store write has finished: the fixed `text/xml`
/// success body on success, `500` with an empty body on failure.
pub fn store_reply(ok: bool) -> (r: HttpReply)
    ensures
        ok ==> reply_is(
            r,
            200,
            Some("text/xml"@),
            twiml_body(),
        ),
        !ok ==> reply_is(r, 500, None::<Seq<char>>, Seq::<char>::empty()),
{
    if ok {
        HttpReply {
            status: 200,
            content_type: Some("text/xml".to_owned()),
            body: "<?xml version=\"1.0\" encoding=\"UTF-8\"?><Response><Message></Message></Response>".to_owned(),
        }
    } else {
        HttpReply { status: 500, content_type: None, body: String::new() }
    }
}

} // verus!
