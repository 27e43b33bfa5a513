//! Minimal JSON helpers: a field scanner for string-valued fields and a
//! formatter for authentication responses.

use vstd::prelude::*;
use vstd::string::StringSliceAdditionalSpecFns;
use crate::bytes::{find_from, skip_ws, find_bytes, skip_ws_at, subrange_vec};
use crate::digits::{dec_digits_int, i64_to_dec};

verus! {

/// `field` wrapped in double quotes (byte 34).
pub open spec fn quoted_key(field: Seq<u8>) -> Seq<u8> {
    seq![34u8] + field + seq![34u8]
}

/// The value that scanning `json` for a string-valued `field` yields:
/// locate the first occurrence of the quoted field name, then the first
/// colon after it, skip ASCII whitespace, and if a double quote follows,
/// take the bytes up to the next double quote. Anything else yields
/// nothing.
pub open spec fn json_field_value(json: Seq<u8>, field: Seq<u8>) -> Option<Seq<u8>> {
    match find_from(json, quoted_key(field), 0) {
        Some(start) => match find_from(json, seq![58u8], start) {
            Some(colon) => {
                let vs = skip_ws(json, colon + 1);
                if vs < json.len() && json[vs] == 34 {
                    match find_from(json, seq![34u8], vs + 1) {
                        Some(endq) => Some(json.subrange(vs + 1, endq)),
                        None => None,
                    }
                } else {
                    None
                }
            },
            None => None,
        },
        None => None,
    }
}

/// Scan `json` for the string value of `field`, as `json_field_value`
/// describes. This is a byte-level scan, not a full JSON parse: it is
/// meant for flat objects whose values contain no escaped quotes.
pub fn parse_json_field(json: &[u8], field: &[u8]) -> (r: Option<Vec<u8>>)
    ensures
        match r {
            Some(v) => json_field_value(json@, field@) == Some(v@),
            None => json_field_value(json@, field@) is None,
        },
{
    let mut key: Vec<u8> = Vec::new();
    key.push(34u8);
    key.extend_from_slice(field);
    key.push(34u8);
    proof {
        assert(key@ =~= quoted_key(field@));
    }
    let start = match find_bytes(json, key.as_slice(), 0) {
        Some(s) => s,
        None => {
            return None;
        },
    };
    proof {
        crate::bytes::lemma_find_from_bounds(json@, quoted_key(field@), 0);
    }
    let mut colon_pat: Vec<u8> = Vec::new();
    colon_pat.push(58u8);
    proof {
        assert(colon_pat@ =~= seq![58u8]);
    }
    let colon = match find_bytes(json, colon_pat.as_slice(), start) {
        Some(c) => c,
        None => {
            return None;
        },
    };
    proof {
        crate::bytes::lemma_find_from_bounds(json@, seq![58u8], start as int);
    }
    let jlen = json.len();
    assert(colon + 1 <= jlen);
    let vs = skip_ws_at(json, colon + 1);
    if vs < json.len() && json[vs] == 34 {
        let mut quote_pat: Vec<u8> = Vec::new();
        quote_pat.push(34u8);
        proof {
            assert(quote_pat@ =~= seq![34u8]);
        }
        match find_bytes(json, quote_pat.as_slice(), vs + 1) {
            Some(endq) => {
                proof {
                    crate::bytes::lemma_find_from_bounds(json@, seq![34u8], vs + 1);
                }
                Some(subrange_vec(json, vs + 1, endq))
            },
            None => None,
        }
    } else {
        None
    }
}

/// The authentication response body for the given outcome: a successful
/// lookup renders the user identifier, a failed one renders the error
/// message if there is one.
pub open spec fn json_response_bytes(user_id: Option<i64>, error: Option<Seq<u8>>) -> Seq<u8> {
    match (user_id, error) {
        (Some(id), _) => "{\"Success\":true,\"UserId\":".spec_bytes() + dec_digits_int(
            id as int,
        ) + "}".spec_bytes(),
        (None, Some(e)) => "{\"Success\":false,\"ErrorMessage\":\"".spec_bytes() + e
            + "\"}".spec_bytes(),
        (None, None) => "{\"Success\":false}".spec_bytes(),
    }
}

/// Render an authentication response body. A present `user_id` renders
/// the success shape whatever `_success` says, matching the lookup
/// convention that an identifier is only ever produced on success.
pub fn json_response(_success: bool, user_id: Option<i64>, error: Option<&[u8]>) -> (r: Vec<u8>)
    ensures
        r@ == json_response_bytes(user_id, error.deep_view()),
{
    match (user_id, error) {
        (Some(id), _) => {
            let mut v: Vec<u8> = Vec::new();
            v.extend_from_slice("{\"Success\":true,\"UserId\":".as_bytes());
            let digits = i64_to_dec(id);
            v.extend_from_slice(digits.as_slice());
            v.extend_from_slice("}".as_bytes());
            proof {
                assert(v@ =~= json_response_bytes(user_id, error.deep_view()));
            }
            v
        },
        (None, Some(e)) => {
            let mut v: Vec<u8> = Vec::new();
            v.extend_from_slice("{\"Success\":false,\"ErrorMessage\":\"".as_bytes());
            v.extend_from_slice(e);
            v.extend_from_slice("\"}".as_bytes());
            proof {
                assert(v@ =~= json_response_bytes(user_id, error.deep_view()));
            }
            v
        },
        (None, None) => {
            let mut v: Vec<u8> = Vec::new();
            v.extend_from_slice("{\"Success\":false}".as_bytes());
            proof {
                assert(v@ =~= json_response_bytes(user_id, error.deep_view()));
            }
            v
        },
    }
}

} // verus!
