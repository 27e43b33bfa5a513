//! Target endpoint resolution: a base URL template may carry a rotating
//! port marker (`%` followed by a port number and a `/`), which fans
//! requests out across sixteen consecutive listener ports keyed by the
//! dispatch index.

use vstd::prelude::*;
use vstd::string::StringSliceAdditionalSpecFns;
use crate::bytes::find_from;
use crate::digits::{all_digits, dec_digits, dec_value, lemma_dec_value_prefix};

verus! {

/// The digits of a port literal: an optional leading `+` is dropped.
pub open spec fn port_digits(s: Seq<u8>) -> Seq<u8> {
    if s.len() > 0 && s[0] == 43 {
        s.subrange(1, s.len() as int)
    } else {
        s
    }
}

/// The port number a byte literal denotes: an optional `+`, then at
/// least one digit, with a value of at most 65535; anything else
/// denotes no port.
pub open spec fn spec_parse_port(s: Seq<u8>) -> Option<u16> {
    let d = port_digits(s);
    if d.len() > 0 && all_digits(d) && dec_value(d) <= 65535 {
        Some(dec_value(d) as u16)
    } else {
        None
    }
}

/// Parse a port literal as `spec_parse_port` describes.
pub fn parse_port(s: &[u8]) -> (r: Option<u16>)
    ensures
        r == spec_parse_port(s@),
{
    let start: usize = if s.len() > 0 && s[0] == 43 {
        1
    } else {
        0
    };
    proof {
        assert(port_digits(s@) =~= s@.subrange(start as int, s@.len() as int));
    }
    if s.len() == start {
        return None;
    }
    let ghost d = port_digits(s@);
    let mut acc: u32 = 0;
    let mut j: usize = start;
    while j < s.len()
        invariant
            start <= j <= s@.len(),
            d == port_digits(s@),
            d =~= s@.subrange(start as int, s@.len() as int),
            acc == dec_value(d.subrange(0, j - start)),
            acc <= 65535,
            all_digits(d.subrange(0, j - start)),
        decreases s@.len() - j,
    {
        let b = s[j];
        if b < 48 || b > 57 {
            proof {
                assert(d[j - start] == b);
                assert(!all_digits(d));
            }
            return None;
        }
        proof {
            assert(d.subrange(0, j - start + 1).drop_last() =~= d.subrange(0, j - start));
            assert(d.subrange(0, j - start + 1).last() == b);
        }
        acc = acc * 10 + (b - 48) as u32;
        if acc > 65535 {
            proof {
                if all_digits(d) {
                    lemma_dec_value_prefix(d, j - start + 1);
                }
            }
            return None;
        }
        j = j + 1;
    }
    proof {
        assert(d.subrange(0, d.len() as int) =~= d);
    }
    Some(acc as u16)
}

/// A rotating-port marker found in a URL template: the bytes before the
/// marker, the base port, and the bytes from the path separator on.
pub struct PortRotation {
    pub prefix: Vec<u8>,
    pub base_port: u16,
    pub suffix: Vec<u8>,
}

/// The marker a template carries, if any: the first `%`, the first `/`
/// after it, and a valid port literal between them.
pub open spec fn template_rotation(t: Seq<u8>) -> Option<(Seq<u8>, u16, Seq<u8>)> {
    match find_from(t, seq![37u8], 0) {
        Some(m) => match find_from(t, seq![47u8], m + 1) {
            Some(sl) => match spec_parse_port(t.subrange(m + 1, sl)) {
                Some(p) => Some((t.subrange(0, m), p, t.subrange(sl, t.len() as int))),
                None => None,
            },
            None => None,
        },
        None => None,
    }
}

/// One test run's immutable target description: the literal base URL
/// template, and its rotating-port decomposition when the template
/// carries a well-formed marker.
pub struct TargetSpec {
    pub template: Vec<u8>,
    pub rotation: Option<PortRotation>,
}

impl TargetSpec {
    /// The rotation field faithfully mirrors what the template says.
    pub open spec fn wf(self) -> bool {
        match template_rotation(self.template@) {
            Some((pre, p, suf)) => match self.rotation {
                Some(r) => r.prefix@ == pre && r.base_port == p && r.suffix@ == suf,
                None => false,
            },
            None => self.rotation is None,
        }
    }
}

/// Decompose a URL template once, at configuration time. A template
/// without a well-formed marker (no `%`, no `/` after it, or a bad port
/// literal) resolves to itself unchanged, so nothing here can fail.
pub fn parse_template(template: Vec<u8>) -> (r: TargetSpec)
    ensures
        r.template@ == template@,
        r.wf(),
{
    let mut marker_pat: Vec<u8> = Vec::new();
    marker_pat.push(37u8);
    proof {
        assert(marker_pat@ =~= seq![37u8]);
    }
    let m = match crate::bytes::find_bytes(template.as_slice(), marker_pat.as_slice(), 0) {
        Some(m) => m,
        None => {
            return TargetSpec { template, rotation: None };
        },
    };
    proof {
        crate::bytes::lemma_find_from_bounds(template@, seq![37u8], 0);
    }
    let tlen = template.len();
    assert(m + 1 <= tlen);
    let mut slash_pat: Vec<u8> = Vec::new();
    slash_pat.push(47u8);
    proof {
        assert(slash_pat@ =~= seq![47u8]);
    }
    let sl = match crate::bytes::find_bytes(template.as_slice(), slash_pat.as_slice(), m + 1) {
        Some(sl) => sl,
        None => {
            return TargetSpec { template, rotation: None };
        },
    };
    proof {
        crate::bytes::lemma_find_from_bounds(template@, seq![47u8], m + 1);
    }
    let port_str = crate::bytes::subrange_vec(template.as_slice(), m + 1, sl);
    let port = match parse_port(port_str.as_slice()) {
        Some(p) => p,
        None => {
            return TargetSpec { template, rotation: None };
        },
    };
    let prefix = crate::bytes::subrange_vec(template.as_slice(), 0, m);
    let suffix = crate::bytes::subrange_vec(template.as_slice(), sl, template.len());
    TargetSpec { template, rotation: Some(PortRotation { prefix, base_port: port, suffix }) }
}

/// The port used for dispatch index `i`: the base port plus `i mod 16`.
/// The sum is taken over the full integers, so a base port near the top
/// of the sixteen-bit range still resolves rather than failing.
pub open spec fn rotated_port(base: u16, i: int) -> int {
    base + (i % 16)
}

/// The concrete base URL for dispatch index `i`: a template without a
/// marker is returned unchanged for every index; one with a marker has
/// the marker and port literal replaced by the rotated port's digits.
pub open spec fn resolved_url(t: Seq<u8>, i: int) -> Seq<u8> {
    match template_rotation(t) {
        Some((pre, p, suf)) => pre + dec_digits(rotated_port(p, i) as nat) + suf,
        None => t,
    }
}

impl TargetSpec {
    /// Resolve the base URL to call for dispatch index `i`. Pure and
    /// total: for a template without a marker this is the template
    /// itself, whatever `i` is.
    pub fn resolve_url(&self, i: usize) -> (r: Vec<u8>)
        requires
            self.wf(),
        ensures
            r@ == resolved_url(self.template@, i as int),
            template_rotation(self.template@) is None ==> r@ == self.template@,
    {
        match &self.rotation {
            None => crate::bytes::subrange_vec(self.template.as_slice(), 0, self.template.len()),
            Some(rot) => {
                let port32: u32 = rot.base_port as u32 + (i % 16) as u32;
                let digits = crate::digits::u64_to_dec(port32 as u64);
                let mut v: Vec<u8> = Vec::new();
                v.extend_from_slice(rot.prefix.as_slice());
                v.extend_from_slice(digits.as_slice());
                v.extend_from_slice(rot.suffix.as_slice());
                proof {
                    assert(self.template@.subrange(0, self.template@.len() as int)
                        =~= self.template@);
                    assert(v@ =~= resolved_url(self.template@, i as int));
                }
                v
            },
        }
    }
}

/// `base` with `path` appended, unchanged otherwise.
pub fn join_url(base: &[u8], path: &[u8]) -> (r: Vec<u8>)
    ensures
        r@ == base@ + path@,
{
    let mut v: Vec<u8> = Vec::new();
    v.extend_from_slice(base);
    v.extend_from_slice(path);
    v
}

/// `t` with every rotating-port marker byte (`%`) removed and other
/// bytes kept in order, from position `i` on.
pub open spec fn without_markers_from(t: Seq<u8>, i: int) -> Seq<u8>
    decreases t.len() - i,
{
    if i < 0 || i >= t.len() {
        Seq::empty()
    } else if t[i] == 37 {
        without_markers_from(t, i + 1)
    } else {
        seq![t[i]] + without_markers_from(t, i + 1)
    }
}

/// `t` with every marker byte removed.
pub open spec fn without_markers(t: Seq<u8>) -> Seq<u8> {
    without_markers_from(t, 0)
}

/// The URL of the target's one-time seed operation: the template with
/// marker bytes dropped, then the seed path.
pub fn seed_url(template: &[u8]) -> (r: Vec<u8>)
    ensures
        r@ == without_markers(template@) + "api/auth/create-db".spec_bytes(),
{
    let mut v: Vec<u8> = Vec::new();
    let mut i: usize = 0;
    while i < template.len()
        invariant
            i <= template@.len(),
            without_markers(template@) == v@ + without_markers_from(template@, i as int),
        decreases template@.len() - i,
    {
        if template[i] != 37 {
            v.push(template[i]);
        }
        i = i + 1;
    }
    proof {
        assert(v@ + without_markers_from(template@, template@.len() as int) =~= v@);
    }
    v.extend_from_slice("api/auth/create-db".as_bytes());
    v
}

/// The URL of the target's diagnostic health endpoint.
pub fn health_url(template: &[u8]) -> (r: Vec<u8>)
    ensures
        r@ == template@ + "/health".spec_bytes(),
{
    join_url(template, "/health".as_bytes())
}

/// The URL of the authentication endpoint under a resolved base URL.
pub fn token_url(resolved_base: &[u8]) -> (r: Vec<u8>)
    ensures
        r@ == resolved_base@ + "api/auth/get-user-token".spec_bytes(),
{
    join_url(resolved_base, "api/auth/get-user-token".as_bytes())
}

} // verus!
