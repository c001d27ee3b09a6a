//! The incoming message: which form fields it has, and how a parsed form
//! is turned into one.
//!
//! Four fields are required (`MessageSid`, `From`, `To`, `Body`); six more
//! are accepted but unused.  A form decodes into a message exactly when
//! every required field is present once, no field is repeated, and every
//! present field holds valid UTF-8.

use vstd::prelude::*;

use crate::form::{find_unique, pairs_view, values_for};
use vstd::string::StringSliceAdditionalSpecFns;
use vstd::utf8::{decode_utf8, valid_utf8};

verus! {

/// One inbound SMS-delivery callback, as submitted by the caller.
#[derive(Clone, Debug)]
pub struct IncomingMessage {
    pub message_sid: String,
    pub sms_id: Option<String>,
    pub sms_message_sid: Option<String>,
    pub account_sid: Option<String>,
    pub messaging_service_sid: Option<String>,
    pub from: String,
    pub to: String,
    pub body: String,
    pub num_media: Option<String>,
    pub num_segments: Option<String>,
}

/// The `MessageSid` key, as bytes on the wire.
pub open spec fn key_message_sid() -> Seq<u8> {
    "MessageSid".spec_bytes()
}

/// The `SmsSid` key.
pub open spec fn key_sms_sid() -> Seq<u8> {
    "SmsSid".spec_bytes()
}

/// The `SmsMessageSid` key.
pub open spec fn key_sms_message_sid() -> Seq<u8> {
    "SmsMessageSid".spec_bytes()
}

/// The `AccountSid` key.
pub open spec fn key_account_sid() -> Seq<u8> {
    "AccountSid".spec_bytes()
}

/// The `MessagingServiceSid` key.
pub open spec fn key_messaging_service_sid() -> Seq<u8> {
    "MessagingServiceSid".spec_bytes()
}

/// The `From` key.
pub open spec fn key_from() -> Seq<u8> {
    "From".spec_bytes()
}

/// The `To` key.
pub open spec fn key_to() -> Seq<u8> {
    "To".spec_bytes()
}

/// The `Body` key.
pub open spec fn key_body() -> Seq<u8> {
    "Body".spec_bytes()
}

/// The `NumMedia` key.
pub open spec fn key_num_media() -> Seq<u8> {
    "NumMedia".spec_bytes()
}

/// The `NumSegments` key.
pub open spec fn key_num_segments() -> Seq<u8> {
    "NumSegments".spec_bytes()
}

/// A required field: present exactly once, with a valid UTF-8 value.
pub open spec fn required_field_ok(pairs: Seq<(Seq<u8>, Seq<u8>)>, key: Seq<u8>) -> bool {
    values_for(pairs, key).len() == 1 && valid_utf8(values_for(pairs, key)[0])
}

/// An optional field: absent, or present exactly once with valid UTF-8.
pub open spec fn optional_field_ok(pairs: Seq<(Seq<u8>, Seq<u8>)>, key: Seq<u8>) -> bool {
    ||| values_for(pairs, key).len() == 0
    ||| required_field_ok(pairs, key)
}

/// The decoded characters of a field that is present exactly once.
pub open spec fn field_chars(pairs: Seq<(Seq<u8>, Seq<u8>)>, key: Seq<u8>) -> Seq<char> {
    decode_utf8(values_for(pairs, key)[0])
}

/// The parsed pairs decode into an `IncomingMessage`.
pub open spec fn form_decodes(pairs: Seq<(Seq<u8>, Seq<u8>)>) -> bool {
    &&& required_field_ok(pairs, key_message_sid())
    &&& required_field_ok(pairs, key_from())
    &&& required_field_ok(pairs, key_to())
    &&& required_field_ok(pairs, key_body())
    &&& optional_field_ok(pairs, key_sms_sid())
    &&& optional_field_ok(pairs, key_sms_message_sid())
    &&& optional_field_ok(pairs, key_account_sid())
    &&& optional_field_ok(pairs, key_messaging_service_sid())
    &&& optional_field_ok(pairs, key_num_media())
    &&& optional_field_ok(pairs, key_num_segments())
}

/// An optional field of the message holds exactly what the form carries.
pub open spec fn optional_field_matches(
    o: Option<String>,
    pairs: Seq<(Seq<u8>, Seq<u8>)>,
    key: Seq<u8>,
) -> bool {
    match o {
        None => values_for(pairs, key).len() == 0,
        Some(s) => values_for(pairs, key).len() == 1 && s@ == field_chars(pairs, key),
    }
}

/// Every field of the message holds exactly what the form carries.
pub open spec fn message_matches(m: IncomingMessage, pairs: Seq<(Seq<u8>, Seq<u8>)>) -> bool {
    &&& m.message_sid@ == field_chars(pairs, key_message_sid())
    &&& m.from@ == field_chars(pairs, key_from())
    &&& m.to@ == field_chars(pairs, key_to())
    &&& m.body@ == field_chars(pairs, key_body())
    &&& optional_field_matches(m.sms_id, pairs, key_sms_sid())
    &&& optional_field_matches(m.sms_message_sid, pairs, key_sms_message_sid())
    &&& optional_field_matches(m.account_sid, pairs, key_account_sid())
    &&& optional_field_matches(m.messaging_service_sid, pairs, key_messaging_service_sid())
    &&& optional_field_matches(m.num_media, pairs, key_num_media())
    &&& optional_field_matches(m.num_segments, pairs, key_num_segments())
}

/// Relies on `core::str::from_utf8`: it returns `Ok` exactly on valid
/// UTF-8, and the borrowed string then holds those bytes decoded.
#[verifier::external_body]
fn utf8_to_str(v: &[u8]) -> (r: Option<&str>)
    ensures
        valid_utf8(v@) ==> r is Some && r->0@ == decode_utf8(v@),
        !valid_utf8(v@) ==> r is None,
{
    match core::str::from_utf8(v) {
        Ok(s) => Some(s),
        Err(_) => None,
    }
}

/// Fetch a required field as a `String`.
fn required_field(pairs: &Vec<(Vec<u8>, Vec<u8>)>, key: &str) -> (r: Option<String>)
    ensures
        match r {
            Some(s) => required_field_ok(pairs_view(pairs@), key.spec_bytes()) && s@
                == field_chars(pairs_view(pairs@), key.spec_bytes()),
            None => !required_field_ok(pairs_view(pairs@), key.spec_bytes()),
        },
{
    match find_unique(pairs, key.as_bytes()) {
        Some(Some(v)) => match utf8_to_str(v.as_slice()) {
            Some(s) => Some(s.to_owned()),
            None => None,
        },
        _ => None,
    }
}

/// Fetch an optional field as an `Option<String>`; `None` means the form
/// does not decode.
fn optional_field(pairs: &Vec<(Vec<u8>, Vec<u8>)>, key: &str) -> (r: Option<Option<String>>)
    ensures
        match r {
            Some(o) => optional_field_ok(pairs_view(pairs@), key.spec_bytes())
                && optional_field_matches(o, pairs_view(pairs@), key.spec_bytes()),
            None => !optional_field_ok(pairs_view(pairs@), key.spec_bytes()),
        },
{
    match find_unique(pairs, key.as_bytes()) {
        Some(Some(v)) => match utf8_to_str(v.as_slice()) {
            Some(s) => Some(Some(s.to_owned())),
            None => None,
        },
        Some(None) => Some(None),
        None => None,
    }
}

/// Decode a parsed form into an `IncomingMessage`, or `None` where a
/// required field is missing, a field is repeated, or a value is not
/// valid UTF-8.
pub fn message_from_pairs(pairs: &Vec<(Vec<u8>, Vec<u8>)>) -> (r: Option<IncomingMessage>)
    ensures
        match r {
            Some(m) => form_decodes(pairs_view(pairs@)) && message_matches(m, pairs_view(pairs@)),
            None => !form_decodes(pairs_view(pairs@)),
        },
{
    let message_sid = match required_field(pairs, "MessageSid") {
        Some(s) => s,
        None => {
            return None;
        },
    };
    let from = match required_field(pairs, "From") {
        Some(s) => s,
        None => {
            return None;
        },
    };
    let to = match required_field(pairs, "To") {
        Some(s) => s,
        None => {
            return None;
        },
    };
    let body = match required_field(pairs, "Body") {
        Some(s) => s,
        None => {
            return None;
        },
    };
    let sms_id = match optional_field(pairs, "SmsSid") {
        Some(o) => o,
        None => {
            return None;
        },
    };
    let sms_message_sid = match optional_field(pairs, "SmsMessageSid") {
        Some(o) => o,
        None => {
            return None;
        },
    };
    let account_sid = match optional_field(pairs, "AccountSid") {
        Some(o) => o,
        None => {
            return None;
        },
    };
    let messaging_service_sid = match optional_field(pairs, "MessagingServiceSid") {
        Some(o) => o,
        None => {
            return None;
        },
    };
    let num_media = match optional_field(pairs, "NumMedia") {
        Some(o) => o,
        None => {
            return None;
        },
    };
    let num_segments = match optional_field(pairs, "NumSegments") {
        Some(o) => o,
        None => {
            return None;
        },
    };
    Some(IncomingMessage {
        message_sid,
        sms_id,
        sms_message_sid,
        account_sid,
        messaging_service_sid,
        from,
        to,
        body,
        num_media,
        num_segments,
    })
}

} // verus!
