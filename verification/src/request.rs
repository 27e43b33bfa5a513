//! Authentication request construction: per-index credentials and the
//! JSON body that carries them.

use vstd::prelude::*;
use vstd::string::StringSliceAdditionalSpecFns;
use crate::digits::dec_digits_int;
use crate::hashing::{hash_password, hex_bytes, sha256_of};

verus! {

/// One authentication attempt's credentials. Synthesized from a request
/// identifier, sent once, never stored.
pub struct LoginRequest {
    pub user_name: Vec<u8>,
    pub hashed_password: Vec<u8>,
}

/// The user name derived from a request identifier.
pub open spec fn username_for(id: int) -> Seq<u8> {
    "user".spec_bytes() + dec_digits_int(id) + "@example.com".spec_bytes()
}

/// The cleartext password derived from a request identifier. Only its
/// hex-encoded SHA-256 digest is ever transmitted.
pub open spec fn password_for(id: int) -> Seq<u8> {
    "password".spec_bytes() + dec_digits_int(id)
}

/// The request identifier used for dispatch index `i`: the reserved
/// sentinel in no-storage mode, else one of the ten thousand seeded
/// identities, cycling with `i`.
pub fn request_id_for(i: usize, no_db: bool) -> (r: i32)
    ensures
        no_db ==> r == -1,
        !no_db ==> r == (i as int % 10000) + 1,
{
    if no_db {
        -1
    } else {
        ((i % 10000) + 1) as i32
    }
}

/// Build the credentials for `request_id`. The reserved sentinel `-1`
/// always yields the fixed placeholder identity, whatever the run's
/// configuration; any other identifier yields its derived user name and
/// the hex SHA-256 digest of its derived password.
pub fn build_login_request(request_id: i32) -> (r: LoginRequest)
    ensures
        request_id == -1 ==> r.user_name@ == "no_db".spec_bytes() && r.hashed_password@
            == "no_db".spec_bytes(),
        request_id != -1 ==> r.user_name@ == username_for(request_id as int)
            && r.hashed_password@ == hex_bytes(sha256_of(password_for(request_id as int))),
{
    if request_id == -1 {
        let mut user: Vec<u8> = Vec::new();
        user.extend_from_slice("no_db".as_bytes());
        let mut hash: Vec<u8> = Vec::new();
        hash.extend_from_slice("no_db".as_bytes());
        proof {
            assert(user@ =~= "no_db".spec_bytes());
            assert(hash@ =~= "no_db".spec_bytes());
        }
        LoginRequest { user_name: user, hashed_password: hash }
    } else {
        let digits = crate::digits::i64_to_dec(request_id as i64);
        let mut user: Vec<u8> = Vec::new();
        user.extend_from_slice("user".as_bytes());
        user.extend_from_slice(digits.as_slice());
        user.extend_from_slice("@example.com".as_bytes());
        let mut password: Vec<u8> = Vec::new();
        password.extend_from_slice("password".as_bytes());
        password.extend_from_slice(digits.as_slice());
        proof {
            assert(user@ =~= username_for(request_id as int));
            assert(password@ =~= password_for(request_id as int));
        }
        let hash = hash_password(password.as_slice());
        LoginRequest { user_name: user, hashed_password: hash }
    }
}

/// The JSON body of an authentication request: the two credential
/// fields, in this order, with no added whitespace.
pub open spec fn login_body_bytes(user: Seq<u8>, hash: Seq<u8>) -> Seq<u8> {
    "{\"UserName\":\"".spec_bytes() + user + "\",\"HashedPassword\":\"".spec_bytes() + hash
        + "\"}".spec_bytes()
}

/// Render the JSON body for `req`.
pub fn login_body(req: &LoginRequest) -> (r: Vec<u8>)
    ensures
        r@ == login_body_bytes(req.user_name@, req.hashed_password@),
{
    let mut v: Vec<u8> = Vec::new();
    v.extend_from_slice("{\"UserName\":\"".as_bytes());
    v.extend_from_slice(req.user_name.as_slice());
    v.extend_from_slice("\",\"HashedPassword\":\"".as_bytes());
    v.extend_from_slice(req.hashed_password.as_slice());
    v.extend_from_slice("\"}".as_bytes());
    proof {
        assert(v@ =~= login_body_bytes(req.user_name@, req.hashed_password@));
    }
    v
}

} // verus!
