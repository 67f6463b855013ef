use qstream::tokens::{
    auth_token_of, generate_session_code, hash_token, hex_string, new_auth_token, new_oauth_state_token,
    oauth_state_token_of, session_code_of,
};

#[test]
fn hash_token_is_sha256_hex() {
    assert_eq!(hash_token("abc"), "ba7816bf8f01cfea414140de5dae2223b00361a396177a9cb410ff61f20015ad");
    assert_eq!(hash_token(""), "e3b0c44298fc1c149afbf4c8996fb92427ae41e4649b934ca495991b7852b855");
    assert_eq!(hash_token("abc"), hash_token("abc"));
    assert_ne!(hash_token("abc"), hash_token("abd"));
}

#[test]
fn uuid_text_forms_match_uuid_crate() {
    let u = uuid::Uuid::new_v4();
    let b = u.as_bytes();
    assert_eq!(session_code_of(b), u.simple().to_string()[..10].to_string());
    assert_eq!(oauth_state_token_of(b, b), format!("{}{}", u.simple(), u.simple()));
    assert_eq!(auth_token_of(b, b), format!("{}{}", u, u.simple()));
}

#[test]
fn fresh_tokens_have_their_shape() {
    let code = generate_session_code();
    assert_eq!(code.len(), 10);
    assert!(code.chars().all(|c| c.is_ascii_hexdigit() && !c.is_ascii_uppercase()));
    let state = new_oauth_state_token();
    assert_eq!(state.len(), 64);
    assert_eq!(state.as_bytes()[12], b'4');
    assert_eq!(state.as_bytes()[44], b'4');
    let token = new_auth_token();
    assert_eq!(token.len(), 68);
    assert_eq!(token.as_bytes()[8], b'-');
    assert_eq!(token.as_bytes()[13], b'-');
    assert_eq!(token.as_bytes()[18], b'-');
    assert_eq!(token.as_bytes()[23], b'-');
    assert_eq!(token.as_bytes()[14], b'4');
    assert_eq!(token.as_bytes()[48], b'4');
}

#[test]
fn hex_text_of_bytes() {
    assert_eq!(hex_string(&[0xab, 0x01, 0x00, 0xff]), "ab0100ff");
    assert_eq!(hex_string(&[]), "");
}
