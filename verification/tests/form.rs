use sms_webhook::form::{decode_component, parse_form};
use sms_webhook::message::message_from_pairs;

fn pairs_of(input: &[u8]) -> Vec<(Vec<u8>, Vec<u8>)> {
    parse_form(input)
}

#[test]
fn splits_on_ampersand_and_equals() {
    let pairs = pairs_of(b"a=1&b=2");
    assert_eq!(pairs, vec![(b"a".to_vec(), b"1".to_vec()), (b"b".to_vec(), b"2".to_vec())]);
}

#[test]
fn segment_without_equals_has_empty_value() {
    let pairs = pairs_of(b"flag&a=1");
    assert_eq!(pairs, vec![(b"flag".to_vec(), b"".to_vec()), (b"a".to_vec(), b"1".to_vec())]);
}

#[test]
fn empty_segments_are_dropped() {
    let pairs = pairs_of(b"&&a=1&&b=2&");
    assert_eq!(pairs, vec![(b"a".to_vec(), b"1".to_vec()), (b"b".to_vec(), b"2".to_vec())]);
}

#[test]
fn empty_input_has_no_pairs() {
    assert!(pairs_of(b"").is_empty());
}

#[test]
fn plus_decodes_to_space() {
    assert_eq!(decode_component(b"a+b+c"), b"a b c".to_vec());
}

#[test]
fn percent_escapes_decode() {
    assert_eq!(decode_component(b"%2B1555"), b"+1555".to_vec());
    assert_eq!(decode_component(b"%41%62%63"), b"Abc".to_vec());
    assert_eq!(decode_component(b"%0a%0D"), b"\n\r".to_vec());
}

#[test]
fn invalid_escapes_are_kept_literally() {
    assert_eq!(decode_component(b"%ZZ"), b"%ZZ".to_vec());
    assert_eq!(decode_component(b"100%"), b"100%".to_vec());
    assert_eq!(decode_component(b"%2"), b"%2".to_vec());
    assert_eq!(decode_component(b"%%41"), b"%A".to_vec());
}

#[test]
fn keys_are_decoded_too() {
    let pairs = pairs_of(b"a+b=c%26d");
    assert_eq!(pairs, vec![(b"a b".to_vec(), b"c&d".to_vec())]);
}

#[test]
fn message_fields_are_filled() {
    let pairs = pairs_of(b"MessageSid=SM1&SmsSid=S1&From=%2B1&To=%2B2&Body=Hello+there&NumSegments=1");
    let m = message_from_pairs(&pairs).expect("form should decode");
    assert_eq!(m.message_sid, "SM1");
    assert_eq!(m.sms_id.as_deref(), Some("S1"));
    assert_eq!(m.sms_message_sid, None);
    assert_eq!(m.account_sid, None);
    assert_eq!(m.messaging_service_sid, None);
    assert_eq!(m.from, "+1");
    assert_eq!(m.to, "+2");
    assert_eq!(m.body, "Hello there");
    assert_eq!(m.num_media, None);
    assert_eq!(m.num_segments.as_deref(), Some("1"));
}

#[test]
fn unknown_fields_are_ignored() {
    let pairs = pairs_of(b"MessageSid=SM1&From=a&To=b&Body=c&ApiVersion=2010-04-01");
    assert!(message_from_pairs(&pairs).is_some());
}

#[test]
fn multibyte_utf8_values_decode() {
    let pairs = pairs_of(b"MessageSid=SM1&From=a&To=b&Body=%E2%82%AC5");
    let m = message_from_pairs(&pairs).expect("form should decode");
    assert_eq!(m.body, "\u{20AC}5");
}

#[test]
fn invalid_utf8_value_does_not_decode() {
    let pairs = pairs_of(b"MessageSid=SM1&From=a&To=b&Body=%FF");
    assert!(message_from_pairs(&pairs).is_none());
}

#[test]
fn field_names_are_case_sensitive() {
    let pairs = pairs_of(b"messagesid=SM1&From=a&To=b&Body=c");
    assert!(message_from_pairs(&pairs).is_none());
}
