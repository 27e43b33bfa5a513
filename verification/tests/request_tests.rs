use loadtest::hashing::hash_password;
use loadtest::request::{build_login_request, login_body, request_id_for};
use sha2::Digest;

#[test]
fn sentinel_identifier_always_gets_placeholder_credentials() {
    let req = build_login_request(-1);
    assert_eq!(req.user_name, b"no_db".to_vec());
    assert_eq!(req.hashed_password, b"no_db".to_vec());
}

#[test]
fn derived_credentials_for_ordinary_identifier() {
    let req = build_login_request(7);
    assert_eq!(req.user_name, b"user7@example.com".to_vec());
    // The transmitted credential is the hex SHA-256 of the derived
    // password, never the password itself.
    let expected = hex::encode(sha2::Sha256::digest(b"password7")).into_bytes();
    assert_eq!(req.hashed_password, expected);
    assert_eq!(req.hashed_password.len(), 64);
    assert_ne!(req.hashed_password, b"password7".to_vec());
}

#[test]
fn hash_password_known_vectors() {
    assert_eq!(
        hash_password(b""),
        b"e3b0c44298fc1c149afbf4c8996fb92427ae41e4649b934ca495991b7852b855".to_vec()
    );
    assert_eq!(
        hash_password(b"abc"),
        b"ba7816bf8f01cfea414140de5dae2223b00361a396177a9cb410ff61f20015ad".to_vec()
    );
}

#[test]
fn request_identifier_cycles_and_respects_no_storage_mode() {
    assert_eq!(request_id_for(0, false), 1);
    assert_eq!(request_id_for(9999, false), 10000);
    assert_eq!(request_id_for(10000, false), 1);
    assert_eq!(request_id_for(0, true), -1);
    assert_eq!(request_id_for(123456, true), -1);
}

#[test]
fn login_body_is_the_exact_json_shape() {
    let req = build_login_request(-1);
    assert_eq!(
        login_body(&req),
        b"{\"UserName\":\"no_db\",\"HashedPassword\":\"no_db\"}".to_vec()
    );
}
