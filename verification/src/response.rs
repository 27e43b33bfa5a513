//! Authentication response handling: a verified parser for the response
//! body shape the targets answer with, and outcome classification.
//!
//! The accepted shape is the documented boundary contract: a single JSON
//! object with the fields `Success` (a boolean, required), `UserId` (an
//! integer in the signed sixty-four bit range, or null) and
//! `ErrorMessage` (a string, or null), in any order, each at most once.
//! Any other body is a failed outcome. String values are kept raw:
//! escape sequences are not decoded, which classification never needs.

use vstd::prelude::*;
use vstd::string::StringSliceAdditionalSpecFns;
use crate::bytes::{skip_ws, skip_ws_at, subrange_vec};
use crate::digits::{all_digits, dec_digits, dec_digits_int, dec_value, lemma_dec_digits_value,
    lemma_dec_value_bound, lemma_pow10_is, pow10};
use crate::json::json_response_bytes;

verus! {

/// One request's terminal result: whether authentication succeeded, and
/// the measured wall-clock latency in microseconds.
#[derive(Clone, Copy, PartialEq, Eq, Structural, Debug)]
pub struct RequestOutcome {
    pub success: bool,
    pub latency_micros: u64,
}

/// A parsed authentication response.
pub struct LoginResponse {
    pub success: bool,
    pub user_id: Option<i64>,
    pub error_message: Option<Vec<u8>>,
}

/// The mathematical image of a parsed response.
pub struct RespV {
    pub success: bool,
    pub user_id: Option<int>,
    pub error_message: Option<Seq<u8>>,
}

/// The fields collected while walking a response object's members.
pub struct AccV {
    pub success: Option<bool>,
    pub user_id_seen: bool,
    pub user_id: Option<int>,
    pub error_seen: bool,
    pub error_message: Option<Seq<u8>>,
}

/// No member seen yet.
pub open spec fn empty_acc() -> AccV {
    AccV { success: None, user_id_seen: false, user_id: None, error_seen: false, error_message: None }
}

/// The identifier of an optional sixty-four bit integer, widened.
pub open spec fn opt_i64_view(o: Option<i64>) -> Option<int> {
    match o {
        Some(v) => Some(v as int),
        None => None,
    }
}

/// The contents of an optional byte vector.
pub open spec fn opt_bytes_view(o: Option<Vec<u8>>) -> Option<Seq<u8>> {
    match o {
        Some(v) => Some(v@),
        None => None,
    }
}

/// The position just past the closing quote of a JSON string whose
/// opening quote stands right before `i`: a backslash always consumes
/// the following byte.
pub open spec fn str_end(s: Seq<u8>, i: int) -> Option<int>
    decreases s.len() - i,
{
    if i < 0 || i >= s.len() {
        None
    } else if s[i] == 34 {
        Some(i + 1)
    } else if s[i] == 92 {
        if i + 2 <= s.len() {
            str_end(s, i + 2)
        } else {
            None
        }
    } else {
        str_end(s, i + 1)
    }
}

/// A JSON string starting at `i`: its raw content (escape sequences
/// included undecoded) and the position just past its closing quote.
pub open spec fn sp_string(s: Seq<u8>, i: int) -> Option<(Seq<u8>, int)> {
    if 0 <= i < s.len() && s[i] == 34 {
        match str_end(s, i + 1) {
            Some(j) => Some((s.subrange(i + 1, j - 1), j)),
            None => None,
        }
    } else {
        None
    }
}

/// The first position at or after `i` that does not hold a decimal
/// digit.
pub open spec fn digits_end(s: Seq<u8>, i: int) -> int
    decreases s.len() - i,
{
    if i < 0 || i >= s.len() {
        i
    } else if 48 <= s[i] <= 57 {
        digits_end(s, i + 1)
    } else {
        i
    }
}

/// A JSON integer starting at `i`: an optional minus sign, then digits
/// without a leading zero, denoting a value the signed sixty-four bit
/// range can hold; its value and the position just past the digits.
pub open spec fn sp_int(s: Seq<u8>, i: int) -> Option<(int, int)> {
    let start = if 0 <= i < s.len() && s[i] == 45 {
        i + 1
    } else {
        i
    };
    let e = digits_end(s, start);
    if e == start || (e - start > 1 && s[start] == 48) {
        None
    } else {
        let v: int = if start > i {
            -dec_value(s.subrange(start, e))
        } else {
            dec_value(s.subrange(start, e))
        };
        if i64::MIN <= v <= i64::MAX {
            Some((v, e))
        } else {
            None
        }
    }
}

/// The position just past `kw` if `s` carries it verbatim at `i`.
pub open spec fn sp_keyword(s: Seq<u8>, i: int, kw: Seq<u8>) -> Option<int> {
    if 0 <= i && i + kw.len() <= s.len() && s.subrange(i, i + kw.len() as int) == kw {
        Some(i + kw.len())
    } else {
        None
    }
}

/// Parse a JSON string as `sp_string` describes.
pub fn parse_string(s: &[u8], i: usize) -> (r: Option<(Vec<u8>, usize)>)
    requires
        i <= s@.len(),
    ensures
        match r {
            Some((c, j)) => sp_string(s@, i as int) == Some((c@, j as int)) && i < j <= s@.len(),
            None => sp_string(s@, i as int) is None,
        },
{
    if !(i < s.len() && s[i] == 34) {
        return None;
    }
    let mut k: usize = i + 1;
    loop
        invariant
            i + 1 <= k <= s@.len(),
            i < s@.len(),
            s@[i as int] == 34,
            str_end(s@, i + 1) == str_end(s@, k as int),
        decreases s@.len() - k,
    {
        if k >= s.len() {
            return None;
        }
        if s[k] == 34 {
            let content = subrange_vec(s, i + 1, k);
            return Some((content, k + 1));
        }
        if s[k] == 92 {
            if s.len() - k >= 2 {
                k = k + 2;
            } else {
                return None;
            }
        } else {
            k = k + 1;
        }
    }
}

/// Parse a JSON integer as `sp_int` describes.
pub fn parse_int(s: &[u8], i: usize) -> (r: Option<(i64, usize)>)
    requires
        i <= s@.len(),
    ensures
        match r {
            Some((v, j)) => sp_int(s@, i as int) == Some((v as int, j as int)) && i < j
                <= s@.len(),
            None => sp_int(s@, i as int) is None,
        },
{
    let start: usize = if i < s.len() && s[i] == 45 {
        i + 1
    } else {
        i
    };
    let mut e: usize = start;
    while e < s.len() && 48 <= s[e] && s[e] <= 57
        invariant
            start <= e <= s@.len(),
            digits_end(s@, start as int) == digits_end(s@, e as int),
        decreases s@.len() - e,
    {
        e = e + 1;
    }
    if e == start {
        return None;
    }
    if e - start > 1 && s[start] == 48 {
        return None;
    }
    let ghost d = s@.subrange(start as int, e as int);
    proof {
        assert(all_digits(d)) by {
            lemma_digits_end_digits(s@, start as int, e as int);
        }
    }
    if e - start > 19 {
        // Without a leading zero, twenty or more digits denote at
        // least ten to the nineteenth, past either end of the range.
        proof {
            assert(d[0] == s@[start as int]);
            crate::digits::lemma_dec_value_lower(d);
            crate::digits::lemma_pow10_mono(19, (d.len() - 1) as nat);
            lemma_pow10_is();
        }
        return None;
    }
    let mut acc: u64 = 0;
    let mut j: usize = start;
    while j < e
        invariant
            start <= j <= e <= s@.len(),
            d == s@.subrange(start as int, e as int),
            e - start <= 19,
            all_digits(d),
            forall|k: int| 0 <= k < d.len() ==> d[k] == s@[start + k],
            acc == dec_value(d.subrange(0, j - start)),
            0 <= acc,
        decreases e - j,
    {
        proof {
            assert(all_digits(d.subrange(0, j - start)));
            lemma_dec_value_bound(d.subrange(0, j - start));
            lemma_pow10_is();
            crate::digits::lemma_pow10_mono((j - start) as nat, 18);
            assert(acc < pow10(18));
            assert(d.subrange(0, j - start + 1).drop_last() =~= d.subrange(0, j - start));
            assert(d.subrange(0, j - start + 1).last() == s@[j as int]);
        }
        acc = acc * 10 + (s[j] - 48) as u64;
        j = j + 1;
    }
    proof {
        assert(d.subrange(0, d.len() as int) =~= d);
    }
    if start > i {
        // The magnitude of the smallest signed sixty-four bit value.
        if acc > 9223372036854775808u64 {
            return None;
        }
        if acc == 9223372036854775808u64 {
            Some((i64::MIN, e))
        } else {
            Some((-(acc as i64), e))
        }
    } else {
        if acc > 9223372036854775807u64 {
            return None;
        }
        Some((acc as i64, e))
    }
}

proof fn lemma_digits_end_digits(s: Seq<u8>, i: int, e: int)
    requires
        0 <= i <= s.len(),
        digits_end(s, i) == e,
    ensures
        all_digits(s.subrange(i, e)),
        i <= e <= s.len(),
    decreases s.len() - i,
{
    if i < s.len() && 48 <= s[i] <= 57 {
        lemma_digits_end_digits(s, i + 1, e);
        assert forall|k: int| 0 <= k < e - i implies 48 <= #[trigger] s.subrange(i, e)[k] <= 57 by {
            if k > 0 {
                assert(s.subrange(i + 1, e)[k - 1] == s.subrange(i, e)[k]);
            }
        }
    } else {
        assert(s.subrange(i, e).len() == 0);
    }
}

/// The value of one member folded into `acc`, with the value starting
/// at `i` and the member's raw key being `key`. A key outside the
/// documented three, a repeated key, or a value of the wrong type
/// rejects the body.
pub open spec fn sp_member_value(s: Seq<u8>, i: int, key: Seq<u8>, acc: AccV) -> Option<
    (AccV, int),
> {
    if key == "Success".spec_bytes() {
        if acc.success is Some {
            None
        } else {
            match sp_keyword(s, i, "true".spec_bytes()) {
                Some(j) => Some(
                    (
                        AccV {
                            success: Some(true),
                            user_id_seen: acc.user_id_seen,
                            user_id: acc.user_id,
                            error_seen: acc.error_seen,
                            error_message: acc.error_message,
                        },
                        j,
                    ),
                ),
                None => match sp_keyword(s, i, "false".spec_bytes()) {
                    Some(j) => Some(
                        (
                            AccV {
                                success: Some(false),
                                user_id_seen: acc.user_id_seen,
                                user_id: acc.user_id,
                                error_seen: acc.error_seen,
                                error_message: acc.error_message,
                            },
                            j,
                        ),
                    ),
                    None => None,
                },
            }
        }
    } else if key == "UserId".spec_bytes() {
        if acc.user_id_seen {
            None
        } else {
            match sp_keyword(s, i, "null".spec_bytes()) {
                Some(j) => Some(
                    (
                        AccV {
                            success: acc.success,
                            user_id_seen: true,
                            user_id: None,
                            error_seen: acc.error_seen,
                            error_message: acc.error_message,
                        },
                        j,
                    ),
                ),
                None => match sp_int(s, i) {
                    Some((v, j)) => Some(
                        (
                            AccV {
                                success: acc.success,
                                user_id_seen: true,
                                user_id: Some(v),
                                error_seen: acc.error_seen,
                                error_message: acc.error_message,
                            },
                            j,
                        ),
                    ),
                    None => None,
                },
            }
        }
    } else if key == "ErrorMessage".spec_bytes() {
        if acc.error_seen {
            None
        } else {
            match sp_keyword(s, i, "null".spec_bytes()) {
                Some(j) => Some(
                    (
                        AccV {
                            success: acc.success,
                            user_id_seen: acc.user_id_seen,
                            user_id: acc.user_id,
                            error_seen: true,
                            error_message: None,
                        },
                        j,
                    ),
                ),
                None => match sp_string(s, i) {
                    Some((c, j)) => Some(
                        (
                            AccV {
                                success: acc.success,
                                user_id_seen: acc.user_id_seen,
                                user_id: acc.user_id,
                                error_seen: true,
                                error_message: Some(c),
                            },
                            j,
                        ),
                    ),
                    None => None,
                },
            }
        }
    } else {
        None
    }
}

/// One member (quoted key, colon, value) starting at `i`, folded into
/// `acc`.
pub open spec fn sp_pair(s: Seq<u8>, i: int, acc: AccV) -> Option<(AccV, int)> {
    match sp_string(s, i) {
        Some((key, j)) => {
            let k = skip_ws(s, j);
            if k < s.len() && s[k] == 58 {
                sp_member_value(s, skip_ws(s, k + 1), key, acc)
            } else {
                None
            }
        },
        None => None,
    }
}

/// The members of a non-empty object from position `i` to the closing
/// brace, folded into `acc`, and the position just past the brace.
pub open spec fn sp_members(s: Seq<u8>, i: int, acc: AccV) -> Option<(AccV, int)>
    decreases s.len() - i,
{
    match sp_pair(s, i, acc) {
        Some((acc2, p)) => {
            let k = skip_ws(s, p);
            if k < s.len() && s[k] == 125 {
                Some((acc2, k + 1))
            } else if k < s.len() && s[k] == 44 {
                let n = skip_ws(s, k + 1);
                if i < n <= s.len() {
                    sp_members(s, n, acc2)
                } else {
                    None
                }
            } else {
                None
            }
        },
        None => None,
    }
}

/// The response the collected members denote: the `Success` field is
/// required, the other two default to absent.
pub open spec fn sp_interp(acc: AccV) -> Option<RespV> {
    match acc.success {
        Some(b) => Some(
            RespV { success: b, user_id: acc.user_id, error_message: acc.error_message },
        ),
        None => None,
    }
}

/// The response a whole body denotes, if it has the documented shape:
/// one object, optionally surrounded by whitespace, holding the three
/// known members at most once each with `Success` present.
pub open spec fn sp_response(s: Seq<u8>) -> Option<RespV> {
    let i = skip_ws(s, 0);
    if i < s.len() && s[i] == 123 {
        let j = skip_ws(s, i + 1);
        let parsed = if j < s.len() && s[j] == 125 {
            Some((empty_acc(), j + 1))
        } else {
            sp_members(s, j, empty_acc())
        };
        match parsed {
            Some((acc, p)) => {
                if skip_ws(s, p) == s.len() {
                    sp_interp(acc)
                } else {
                    None
                }
            },
            None => None,
        }
    } else {
        None
    }
}

/// Match `kw` verbatim at `i`, as `sp_keyword` describes.
pub fn parse_keyword(s: &[u8], i: usize, kw: &[u8]) -> (r: Option<usize>)
    requires
        i <= s@.len(),
    ensures
        match r {
            Some(j) => sp_keyword(s@, i as int, kw@) == Some(j as int) && i <= j <= s@.len(),
            None => sp_keyword(s@, i as int, kw@) is None,
        },
{
    if crate::bytes::match_at(s, kw, i) {
        let n = s.len();
        assert(i + kw@.len() <= n);
        Some(i + kw.len())
    } else {
        None
    }
}

/// The fields collected so far while parsing a response object.
struct Partial {
    success_seen: bool,
    success: bool,
    user_id_seen: bool,
    user_id: Option<i64>,
    error_seen: bool,
    error_message: Option<Vec<u8>>,
}

impl Partial {
    /// The mathematical image of the collected fields.
    spec fn acc(&self) -> AccV {
        AccV {
            success: if self.success_seen {
                Some(self.success)
            } else {
                None
            },
            user_id_seen: self.user_id_seen,
            user_id: opt_i64_view(self.user_id),
            error_seen: self.error_seen,
            error_message: opt_bytes_view(self.error_message),
        }
    }
}

/// Parse one member's value as `sp_member_value` describes.
fn parse_member_value(s: &[u8], i: usize, key: &[u8], p: Partial) -> (r: Option<(Partial, usize)>)
    requires
        i <= s@.len(),
    ensures
        match r {
            Some(q) => sp_member_value(s@, i as int, key@, p.acc()) == Some(
                (q.0.acc(), q.1 as int),
            ) && i <= q.1 <= s@.len(),
            None => sp_member_value(s@, i as int, key@, p.acc()) is None,
        },
{
    if crate::bytes::bytes_eq(key, "Success".as_bytes()) {
        if p.success_seen {
            return None;
        }
        match parse_keyword(s, i, "true".as_bytes()) {
            Some(j) => Some((Partial { success_seen: true, success: true, ..p }, j)),
            None => match parse_keyword(s, i, "false".as_bytes()) {
                Some(j) => Some((Partial { success_seen: true, success: false, ..p }, j)),
                None => None,
            },
        }
    } else if crate::bytes::bytes_eq(key, "UserId".as_bytes()) {
        if p.user_id_seen {
            return None;
        }
        match parse_keyword(s, i, "null".as_bytes()) {
            Some(j) => Some((Partial { user_id_seen: true, user_id: None, ..p }, j)),
            None => match parse_int(s, i) {
                Some((v, j)) => Some((Partial { user_id_seen: true, user_id: Some(v), ..p }, j)),
                None => None,
            },
        }
    } else if crate::bytes::bytes_eq(key, "ErrorMessage".as_bytes()) {
        if p.error_seen {
            return None;
        }
        match parse_keyword(s, i, "null".as_bytes()) {
            Some(j) => Some((Partial { error_seen: true, error_message: None, ..p }, j)),
            None => match parse_string(s, i) {
                Some((c, j)) => Some(
                    (Partial { error_seen: true, error_message: Some(c), ..p }, j),
                ),
                None => None,
            },
        }
    } else {
        None
    }
}

/// Parse one member as `sp_pair` describes.
fn parse_pair(s: &[u8], i: usize, p: Partial) -> (r: Option<(Partial, usize)>)
    requires
        i <= s@.len(),
    ensures
        match r {
            Some(q) => sp_pair(s@, i as int, p.acc()) == Some((q.0.acc(), q.1 as int)) && i < q.1
                <= s@.len(),
            None => sp_pair(s@, i as int, p.acc()) is None,
        },
{
    let (key, j) = match parse_string(s, i) {
        Some(kj) => kj,
        None => {
            return None;
        },
    };
    let k = skip_ws_at(s, j);
    if !(k < s.len() && s[k] == 58) {
        return None;
    }
    let v = skip_ws_at(s, k + 1);
    parse_member_value(s, v, key.as_slice(), p)
}

/// Parse a whole response body as `sp_response` describes.
pub fn parse_login_response(body: &[u8]) -> (r: Option<LoginResponse>)
    ensures
        match r {
            Some(resp) => sp_response(body@) == Some(
                RespV {
                    success: resp.success,
                    user_id: opt_i64_view(resp.user_id),
                    error_message: opt_bytes_view(resp.error_message),
                },
            ),
            None => sp_response(body@) is None,
        },
{
    let i = skip_ws_at(body, 0);
    if !(i < body.len() && body[i] == 123) {
        return None;
    }
    let j = skip_ws_at(body, i + 1);
    if j < body.len() && body[j] == 125 {
        // An empty object never carries the required Success field.
        return None;
    }
    let ghost g_start = j as int;
    let mut part = Partial {
        success_seen: false,
        success: false,
        user_id_seen: false,
        user_id: None,
        error_seen: false,
        error_message: None,
    };
    proof {
        assert(part.acc() == empty_acc());
    }
    let mut cur: usize = j;
    loop
        invariant
            cur <= body@.len(),
            skip_ws(body@, 0) == i as int,
            i < body@.len() && body@[i as int] == 123,
            skip_ws(body@, i + 1) == g_start,
            !(g_start < body@.len() && body@[g_start] == 125),
            sp_members(body@, g_start, empty_acc()) == sp_members(body@, cur as int, part.acc()),
        decreases body@.len() - cur,
    {
        let (q, pnext) = match parse_pair(body, cur, part) {
            Some(x) => x,
            None => {
                return None;
            },
        };
        let k = skip_ws_at(body, pnext);
        if k < body.len() && body[k] == 125 {
            let t = skip_ws_at(body, k + 1);
            if t != body.len() {
                return None;
            }
            if !q.success_seen {
                return None;
            }
            return Some(
                LoginResponse {
                    success: q.success,
                    user_id: q.user_id,
                    error_message: q.error_message,
                },
            );
        }
        if k < body.len() && body[k] == 44 {
            let n = skip_ws_at(body, k + 1);
            part = q;
            cur = n;
        } else {
            return None;
        }
    }
}

/// Whether an HTTP status code reports success.
pub open spec fn status_ok(status: u16) -> bool {
    200 <= status < 300
}

/// Decide whether `status` is an HTTP success code.
pub fn status_is_success(status: u16) -> (r: bool)
    ensures
        r == status_ok(status),
{
    200 <= status && status < 300
}

/// Whether a read response counts as a successful authentication: a
/// success status, a body of the documented shape, its success flag set,
/// and its user identifier present. Everything else fails.
pub open spec fn response_accepted(status: u16, body: Seq<u8>) -> bool {
    &&& status_ok(status)
    &&& match sp_response(body) {
        Some(r) => r.success && r.user_id is Some,
        None => false,
    }
}

/// Classify a response that was read in full, with its measured latency.
pub fn classify_response(status: u16, body: &[u8], latency_micros: u64) -> (r: RequestOutcome)
    ensures
        r.success == response_accepted(status, body@),
        r.latency_micros == latency_micros,
{
    if !status_is_success(status) {
        return RequestOutcome { success: false, latency_micros };
    }
    match parse_login_response(body) {
        Some(resp) => RequestOutcome {
            success: resp.success && resp.user_id.is_some(),
            latency_micros,
        },
        None => RequestOutcome { success: false, latency_micros },
    }
}

/// The outcome of an attempt whose response could not even be read: a
/// failure with a latency of zero, never an error that stops the run.
pub fn transport_failure_outcome() -> (r: RequestOutcome)
    ensures
        r.success == false,
        r.latency_micros == 0,
{
    RequestOutcome { success: false, latency_micros: 0 }
}

proof fn lemma_digits_end_is(s: Seq<u8>, i: int, e: int)
    requires
        0 <= i <= e <= s.len(),
        forall|k: int| i <= k < e ==> 48 <= #[trigger] s[k] <= 57,
        e == s.len() || !(48 <= s[e] <= 57),
    ensures
        digits_end(s, i) == e,
    decreases e - i,
{
    if i < e {
        lemma_digits_end_is(s, i + 1, e);
    }
}

/// The bytes of the literal segments the formatter renders and the
/// literal tokens the parser matches.
proof fn lemma_response_literal_bytes()
    ensures
        "{\"Success\":true,\"UserId\":".spec_bytes() =~= seq![
            123u8, 34u8, 83u8, 117u8, 99u8, 99u8, 101u8, 115u8, 115u8, 34u8, 58u8, 116u8, 114u8,
            117u8, 101u8, 44u8, 34u8, 85u8, 115u8, 101u8, 114u8, 73u8, 100u8, 34u8, 58u8,
        ],
        "}".spec_bytes() =~= seq![125u8],
        "Success".spec_bytes() =~= seq![83u8, 117u8, 99u8, 99u8, 101u8, 115u8, 115u8],
        "true".spec_bytes() =~= seq![116u8, 114u8, 117u8, 101u8],
        "UserId".spec_bytes() =~= seq![85u8, 115u8, 101u8, 114u8, 73u8, 100u8],
        "null".spec_bytes() =~= seq![110u8, 117u8, 108u8, 108u8],
{
    let head = "{\"Success\":true,\"UserId\":";
    let tail = "}";
    let key_success = "Success";
    let kw_true = "true";
    let key_user = "UserId";
    let kw_null = "null";
    reveal_strlit("{\"Success\":true,\"UserId\":");
    reveal_strlit("}");
    reveal_strlit("Success");
    reveal_strlit("true");
    reveal_strlit("UserId");
    reveal_strlit("null");
    vstd::string::is_ascii_spec_bytes(head);
    vstd::string::is_ascii_spec_bytes(tail);
    vstd::string::is_ascii_spec_bytes(key_success);
    vstd::string::is_ascii_spec_bytes(kw_true);
    vstd::string::is_ascii_spec_bytes(key_user);
    vstd::string::is_ascii_spec_bytes(kw_null);
    assert(vstd::string::is_ascii(head));
    assert(vstd::string::is_ascii(tail));
    assert(vstd::string::is_ascii(key_success));
    assert(vstd::string::is_ascii(kw_true));
    assert(vstd::string::is_ascii(key_user));
    assert(vstd::string::is_ascii(kw_null));
}

/// A rendered success response always parses back: for every
/// identifier, the body the formatter produces for a successful lookup
/// — whatever error text was offered alongside — is accepted by the
/// parser as a success carrying exactly that identifier and no error
/// message. With `classify_response`, a target answering this shape
/// under a success status is always classified as a success.
#[verifier::rlimit(50)]
pub proof fn lemma_success_response_round_trip(id: i64, error: Option<Seq<u8>>)
    ensures
        sp_response(json_response_bytes(Some(id), error)) == Some(
            RespV { success: true, user_id: Some(id as int), error_message: None },
        ),
{
    lemma_response_literal_bytes();
    let key_success = "Success";
    let kw_true = "true";
    let key_user = "UserId";
    let kw_null = "null";
    let l1 = "{\"Success\":true,\"UserId\":".spec_bytes();
    let l2 = "}".spec_bytes();

    let d = dec_digits_int(id as int);
    let s = json_response_bytes(Some(id), error);
    assert(s == l1 + d + l2);

    // The digit segment: never empty, every byte a digit or a leading
    // minus, no leading zero on a multi-digit run, denoting `id`.
    let mag: nat = if id < 0 {
        (-(id as int)) as nat
    } else {
        id as nat
    };
    lemma_dec_digits_value(mag);
    let dd = dec_digits(mag);
    let m = d.len() as int;
    if id < 0 {
        assert(d == seq![45u8] + dd);
        assert(d[0] == 45);
        assert(forall|k: int| 1 <= k < m ==> d[k] == dd[k - 1]);
    } else {
        assert(d == dd);
    }
    assert(m >= 1);
    let n = s.len() as int;
    assert(n == 26 + m);
    // Every byte of the whole body, by position.
    assert(forall|k: int| 0 <= k < 25 ==> s[k] == l1[k]);
    assert(forall|k: int| 0 <= k < m ==> s[25 + k] == d[k]);
    assert(s[25 + m] == 125);

    // No byte of the body is whitespace where the parser skips it, and
    // the scanner positions are all fixed.
    assert(skip_ws(s, 0) == 0);
    assert(skip_ws(s, 1) == 1);
    assert(skip_ws(s, 10) == 10);
    assert(skip_ws(s, 11) == 11);
    assert(skip_ws(s, 15) == 15);
    assert(skip_ws(s, 16) == 16);
    assert(skip_ws(s, 24) == 24);
    assert(48 <= s[25] <= 57 || s[25] == 45);
    assert(skip_ws(s, 25) == 25);
    assert(skip_ws(s, 25 + m) == 25 + m);
    assert(skip_ws(s, 26 + m) == 26 + m);

    // First member: "Success": true.
    assert(str_end(s, 9) == Some(10int));
    assert(str_end(s, 8) == Some(10int));
    assert(str_end(s, 7) == Some(10int));
    assert(str_end(s, 6) == Some(10int));
    assert(str_end(s, 5) == Some(10int));
    assert(str_end(s, 4) == Some(10int));
    assert(str_end(s, 3) == Some(10int));
    assert(str_end(s, 2) == Some(10int));
    let key1 = s.subrange(2, 9);
    assert(sp_string(s, 1) == Some((key1, 10int)));
    assert(key1 =~= key_success.spec_bytes());
    assert(sp_keyword(s, 11, kw_true.spec_bytes()) == Some(15int)) by {
        assert(s.subrange(11, 15) =~= kw_true.spec_bytes());
    }
    let acc0 = empty_acc();
    let acc1 = AccV {
        success: Some(true),
        user_id_seen: false,
        user_id: None,
        error_seen: false,
        error_message: None,
    };
    assert(sp_member_value(s, 11, key1, acc0) == Some((acc1, 15int)));
    assert(sp_pair(s, 1, acc0) == Some((acc1, 15int)));

    // Second member: "UserId": <id>.
    assert(str_end(s, 23) == Some(24int));
    assert(str_end(s, 22) == Some(24int));
    assert(str_end(s, 21) == Some(24int));
    assert(str_end(s, 20) == Some(24int));
    assert(str_end(s, 19) == Some(24int));
    assert(str_end(s, 18) == Some(24int));
    assert(str_end(s, 17) == Some(24int));
    let key2 = s.subrange(17, 23);
    assert(sp_string(s, 16) == Some((key2, 24int)));
    assert(key2 =~= key_user.spec_bytes());
    assert(key2 != key_success.spec_bytes());
    assert(sp_keyword(s, 25, kw_null.spec_bytes()) is None) by {
        if 25 + kw_null.spec_bytes().len() <= s.len() {
            assert(s.subrange(25, 29)[0] == s[25]);
            assert(s[25] != 110);
        }
    }
    // The integer itself.
    let start: int = if id < 0 {
        26
    } else {
        25
    };
    assert(forall|k: int| start <= k < 25 + m ==> 48 <= #[trigger] s[k] <= 57);
    assert(!(48 <= s[25 + m] <= 57));
    lemma_digits_end_is(s, start, 25 + m);
    if id < 0 {
        assert(s.subrange(26, 25 + m) =~= dd);
        assert(25 + m - start == dd.len());
        if 25 + m - start > 1 {
            assert(s[26] == dd[0]);
            assert(s[26] != 48);
        }
        assert(dec_value(s.subrange(26, 25 + m)) == mag);
        assert(sp_int(s, 25) == Some((id as int, 25 + m)));
    } else {
        assert(s.subrange(25, 25 + m) =~= dd);
        if 25 + m - start > 1 {
            assert(s[25] == dd[0]);
            assert(s[25] != 48);
        }
        assert(dec_value(s.subrange(25, 25 + m)) == mag);
        assert(sp_int(s, 25) == Some((id as int, 25 + m)));
    }
    let acc2 = AccV {
        success: Some(true),
        user_id_seen: true,
        user_id: Some(id as int),
        error_seen: false,
        error_message: None,
    };
    assert(sp_member_value(s, 25, key2, acc1) == Some((acc2, 25 + m)));
    assert(sp_pair(s, 16, acc1) == Some((acc2, 25 + m)));

    // Member list and the closing brace.
    assert(sp_members(s, 16, acc1) == Some((acc2, 26 + m)));
    assert(sp_members(s, 1, acc0) == Some((acc2, 26 + m)));

    // The whole body.
    assert(s[0] == 123 && s[1] != 125);
    assert(sp_response(s) == Some(
        RespV { success: true, user_id: Some(id as int), error_message: None },
    ));
}

} // verus!
