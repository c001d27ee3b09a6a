//! Token authentication for the protected endpoint.
//!
//! The caller supplies a token as the `token` query parameter; it is
//! compared against the configured shared secret in constant time, so that
//! response latency leaks nothing about the secret.  A missing, repeated
//! or mismatched token is unauthorized.

use vstd::prelude::*;

use crate::form::{find_unique, pairs_view, values_for};
use vstd::string::StringSliceAdditionalSpecFns;
use vstd::utf8::encode_utf8;

verus! {

/// Process-wide configuration: the shared secret used to authenticate the
/// webhook caller.  `None` is a fatal misconfiguration that the binary
/// must refuse at startup; the handlers demand a configured token.
#[derive(Clone, Debug)]
pub struct GlobalConfig {
    pub token: Option<String>,
}

/// The query string authorizes the request: it carries exactly one
/// `token` parameter, whose decoded bytes are the secret's UTF-8 bytes.
pub open spec fn authorized(query_pairs: Seq<(Seq<u8>, Seq<u8>)>, secret: Seq<char>) -> bool {
    values_for(query_pairs, "token".spec_bytes()) == seq![encode_utf8(secret)]
}

/// Relies on `orion::util::secure_cmp`, a constant-time comparison: it
/// returns `Ok` exactly when the two byte slices are equal (same length
/// and same contents), taking time independent of where they differ.
#[verifier::external_body]
fn ct_bytes_eq(a: &[u8], b: &[u8]) -> (r: bool)
    ensures
        r == (a@ == b@),
{
    orion::util::secure_cmp(a, b).is_ok()
}

/// Decide whether the parsed query string authorizes the request, using a
/// constant-time comparison against the secret.
pub fn check_token(query_pairs: &Vec<(Vec<u8>, Vec<u8>)>, secret: &String) -> (r: bool)
    ensures
        r == authorized(pairs_view(query_pairs@), secret@),
{
    match find_unique(query_pairs, "token".as_bytes()) {
        Some(Some(t)) => {
            let r = ct_bytes_eq(t.as_slice(), secret.as_str().as_bytes());
            proof {
                let vs = values_for(pairs_view(query_pairs@), "token".spec_bytes());
                if t@ == encode_utf8(secret@) {
                    assert(vs =~= seq![encode_utf8(secret@)]);
                } else {
                    assert(vs[0] != seq![encode_utf8(secret@)][0]);
                }
            }
            r
        },
        Some(None) => {
            proof {
                let vs = values_for(pairs_view(query_pairs@), "token".spec_bytes());
                assert(vs.len() != seq![encode_utf8(secret@)].len());
            }
            false
        },
        None => {
            proof {
                let vs = values_for(pairs_view(query_pairs@), "token".spec_bytes());
                assert(vs.len() != seq![encode_utf8(secret@)].len());
            }
            false
        },
    }
}

} // verus!
