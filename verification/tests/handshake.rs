use ws::digest::SHA1_INPUT_LIMIT;
use ws::handshake::{accept_token, eq_ignore_ascii_case, fits_digest, lowercase, str_eq,
    try_negotiate, HandshakeContext, HandshakeError, HandshakeResponse, SWITCHING_PROTOCOLS,
    WEBSOCKET_SALT};

fn request(method: &str, upgrade: Option<&str>, key: Option<&str>) -> HandshakeContext {
    HandshakeContext {
        method: String::from(method),
        upgrade: upgrade.map(String::from),
        key: key.map(String::from),
    }
}

fn accepted(token: &str) -> HandshakeResponse {
    HandshakeResponse {
        status: 101,
        upgrade: String::from("websocket"),
        connection: String::from("Upgrade"),
        content_length: 0,
        sec_websocket_accept: String::from(token),
    }
}

#[test]
fn accept_token_vector() {
    assert_eq!(accept_token("dGhlIHNhbXBsZSBub25jZQ=="), "s3pPLMBiTxaQ9kYGzzhZRbK+xOo=");
}

#[test]
fn accept_token_second_vector() {
    assert_eq!(accept_token("x3JJHMbDL1EzLkh9GBhXDw=="), "HSmrc0sMlYUkAGmm5OPpG2HaGWk=");
}

#[test]
fn accept_token_of_empty_key() {
    assert_eq!(accept_token(""), "Kfh9QIsMVZcl6xEPYxPHzW8SZ8w=");
}

#[test]
fn accept_token_depends_on_the_key() {
    assert_ne!(accept_token("a"), accept_token("b"));
    assert_ne!(accept_token("dGhlIHNhbXBsZSBub25jZQ=="), "dGhlIHNhbXBsZSBub25jZQ==");
    assert_eq!(accept_token("a").len(), 28);
}

#[test]
fn salt_is_the_protocol_identifier() {
    assert_eq!(WEBSOCKET_SALT, "258EAFA5-E914-47DA-95CA-C5AB0DC85B11");
    assert_eq!(WEBSOCKET_SALT.len(), 36);
    assert_eq!(SWITCHING_PROTOCOLS, 101);
}

#[test]
fn upgrade_request_accepted() {
    let result = try_negotiate(&request("GET", Some("websocket"), Some("dGhlIHNhbXBsZSBub25jZQ==")));
    assert_eq!(result, Ok(accepted("s3pPLMBiTxaQ9kYGzzhZRbK+xOo=")));
}

#[test]
fn mixed_case_upgrade_accepted_identically() {
    let key = Some("dGhlIHNhbXBsZSBub25jZQ==");
    let lower = try_negotiate(&request("GET", Some("websocket"), key));
    let mixed = try_negotiate(&request("GET", Some("WebSocket"), key));
    let upper = try_negotiate(&request("GET", Some("WEBSOCKET"), key));
    assert!(lower.is_ok());
    assert_eq!(mixed, lower);
    assert_eq!(upper, lower);
}

#[test]
fn other_methods_are_not_websocket() {
    for method in ["POST", "HEAD", "get", "Get", "GETS", "", "GE"] {
        let result = try_negotiate(&request(method, Some("websocket"), Some("abc")));
        assert_eq!(result, Err(HandshakeError::NotGet));
    }
    assert_eq!(try_negotiate(&request("PUT", None, None)), Err(HandshakeError::NotGet));
}

#[test]
fn missing_upgrade_is_not_websocket() {
    assert_eq!(
        try_negotiate(&request("GET", None, Some("abc"))),
        Err(HandshakeError::UpgradeMissing)
    );
    assert_eq!(try_negotiate(&request("GET", None, None)), Err(HandshakeError::UpgradeMissing));
}

#[test]
fn other_upgrades_are_not_websocket() {
    for upgrade in ["h2c", "websockets", "websocke", "", " websocket", "web socket", "w\u{e9}bsocket"] {
        let result = try_negotiate(&request("GET", Some(upgrade), Some("abc")));
        assert_eq!(result, Err(HandshakeError::UpgradeMismatch));
    }
    assert_eq!(
        try_negotiate(&request("GET", Some("h2c"), None)),
        Err(HandshakeError::UpgradeMismatch)
    );
}

#[test]
fn missing_key_is_fatal() {
    let result = try_negotiate(&request("GET", Some("WebSocket"), None));
    assert_eq!(result, Err(HandshakeError::KeyMissing));
    assert!(HandshakeError::KeyMissing.is_fatal());
    assert!(HandshakeError::KeyTooLong.is_fatal());
}

#[test]
fn only_the_missing_key_is_fatal() {
    assert!(!HandshakeError::NotGet.is_fatal());
    assert!(!HandshakeError::UpgradeMissing.is_fatal());
    assert!(!HandshakeError::UpgradeMismatch.is_fatal());
}

#[test]
fn string_equality() {
    assert!(str_eq("GET", "GET"));
    assert!(str_eq("", ""));
    assert!(!str_eq("GET", "GE"));
    assert!(!str_eq("GET", "get"));
    assert!(!str_eq("GET", "GEU"));
    assert!(str_eq("\u{20ac}", "\u{20ac}"));
}

#[test]
fn case_insensitive_equality() {
    assert!(eq_ignore_ascii_case("WebSocket", "websocket"));
    assert!(eq_ignore_ascii_case("websocket", "WEBSOCKET"));
    assert!(eq_ignore_ascii_case("", ""));
    assert!(eq_ignore_ascii_case("a-Z_09", "A-z_09"));
    assert!(!eq_ignore_ascii_case("websocket", "websocke"));
    assert!(!eq_ignore_ascii_case("websocket", "webs0cket"));
    assert!(!eq_ignore_ascii_case("@", "`"));
    assert!(!eq_ignore_ascii_case("[", "{"));
    assert!(!eq_ignore_ascii_case("\u{c9}", "\u{e9}"));
    assert!(eq_ignore_ascii_case("\u{e9}X", "\u{e9}x"));
}

#[test]
fn lowercase_of_every_byte() {
    for byte in 0u8..=255 {
        assert_eq!(lowercase(byte), byte.to_ascii_lowercase());
    }
    assert_eq!(lowercase(b'A'), b'a');
    assert_eq!(lowercase(b'Z'), b'z');
    assert_eq!(lowercase(b'@'), b'@');
    assert_eq!(lowercase(b'['), b'[');
}

#[test]
fn response_is_built_around_the_token() {
    assert_eq!(HandshakeResponse::new(String::from("token")), accepted("token"));
    assert_eq!(HandshakeResponse::new(String::new()), accepted(""));
}

#[test]
fn ordinary_keys_fit_the_digest() {
    assert!(fits_digest(""));
    assert!(fits_digest("dGhlIHNhbXBsZSBub25jZQ=="));
    assert!(fits_digest(&"k".repeat(100_000)));
    assert_eq!(SHA1_INPUT_LIMIT, 1u64 << 61);
}

#[test]
fn long_key_is_hashed_whole() {
    let key = "0123456789abcdef".repeat(1000);
    assert_eq!(accept_token(&key), "YH8idCZizhaLMMRJaU3Eded5Nug=");
}
