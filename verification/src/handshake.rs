//! The opening handshake: telling an upgrade request from a plain HTTP
//! request, and answering it.

use vstd::prelude::*;
use vstd::string::is_ascii_spec_bytes;
use vstd::utf8::{encode_utf8, encode_utf8_decode_utf8};
use crate::digest::{base64, base64_standard, sha1, sha1_digest, SHA1_INPUT_LIMIT};

verus! {

/// The identifier that every accept token is derived with.
pub const WEBSOCKET_SALT: &'static str = "258EAFA5-E914-47DA-95CA-C5AB0DC85B11";

/// The token that proves to a client that its handshake was received: the
/// base64 text of the SHA-1 digest of the client's key followed by the
/// protocol's identifier.
pub open spec fn accept_token_of(key: Seq<char>) -> Seq<char> {
    base64_standard(sha1_digest(encode_utf8(key) + encode_utf8(WEBSOCKET_SALT@)))
}

/// Whether SHA-1 is defined for a key followed by the protocol's
/// identifier: the two together must stay below 2 to the power 61 bytes.
pub open spec fn key_fits_digest(key: Seq<char>) -> bool {
    encode_utf8(key).len() + 36 < SHA1_INPUT_LIMIT
}

/// Whether an accept token can be derived for `key`.
pub fn fits_digest(key: &str) -> (fits: bool)
    ensures
        fits == key_fits_digest(key@),
{
    (key.as_bytes().len() as u64) < SHA1_INPUT_LIMIT - 36
}

/// The protocol's identifier is 36 bytes of ASCII.
pub proof fn lemma_salt_len()
    ensures
        encode_utf8(WEBSOCKET_SALT@).len() == 36,
{
    reveal_strlit("258EAFA5-E914-47DA-95CA-C5AB0DC85B11");
    is_ascii_spec_bytes(WEBSOCKET_SALT);
}

/// Derives the accept token for a client's key. SHA-1 is defined for
/// messages below 2 to the power 61 bytes only, so the key must leave room
/// for the identifier below that; [`fits_digest`] tests it.
pub fn accept_token(key: &str) -> (token: String)
    requires
        key_fits_digest(key@),
    ensures
        token@ == accept_token_of(key@),
{
    let mut message: Vec<u8> = Vec::new();
    message.extend_from_slice(key.as_bytes());
    message.extend_from_slice(WEBSOCKET_SALT.as_bytes());
    proof {
        lemma_salt_len();
        assert(message@ =~= encode_utf8(key@) + encode_utf8(WEBSOCKET_SALT@));
    }
    let digest = sha1(message.as_slice());
    base64(&digest)
}

/// The status code of the answer to an accepted upgrade request,
/// "Switching Protocols".
pub const SWITCHING_PROTOCOLS: u16 = 101;

/// What the negotiator reads of an HTTP request.
#[derive(Debug, PartialEq, Eq)]
pub struct HandshakeContext {
    /// The request's method, as it stands in the request line.
    pub method: String,
    /// The value of the `Upgrade` header, if the request has one.
    pub upgrade: Option<String>,
    /// The value of the `Sec-WebSocket-Key` header, if the request has one.
    pub key: Option<String>,
}

/// The mathematical value of a [`HandshakeContext`].
pub struct HandshakeContextView {
    pub method: Seq<char>,
    pub upgrade: Option<Seq<char>>,
    pub key: Option<Seq<char>>,
}

impl View for HandshakeContext {
    type V = HandshakeContextView;

    open spec fn view(&self) -> HandshakeContextView {
        HandshakeContextView {
            method: self.method@,
            upgrade: match self.upgrade {
                Some(value) => Some(value@),
                None => None,
            },
            key: match self.key {
                Some(value) => Some(value@),
                None => None,
            },
        }
    }
}

/// The answer that completes the opening handshake: its status and the
/// four headers it carries.
#[derive(Debug, PartialEq, Eq)]
pub struct HandshakeResponse {
    /// The status code: 101, "Switching Protocols".
    pub status: u16,
    /// The value of the `Upgrade` header: `websocket`.
    pub upgrade: String,
    /// The value of the `Connection` header: `Upgrade`.
    pub connection: String,
    /// The value of the `Content-Length` header: 0.
    pub content_length: u64,
    /// The value of the `Sec-WebSocket-Accept` header: the accept token
    /// for the client's key.
    pub sec_websocket_accept: String,
}

/// The mathematical value of a [`HandshakeResponse`].
pub struct HandshakeResponseView {
    pub status: u16,
    pub upgrade: Seq<char>,
    pub connection: Seq<char>,
    pub content_length: u64,
    pub sec_websocket_accept: Seq<char>,
}

impl View for HandshakeResponse {
    type V = HandshakeResponseView;

    open spec fn view(&self) -> HandshakeResponseView {
        HandshakeResponseView {
            status: self.status,
            upgrade: self.upgrade@,
            connection: self.connection@,
            content_length: self.content_length,
            sec_websocket_accept: self.sec_websocket_accept@,
        }
    }
}

impl HandshakeResponse {
    /// The answer to an accepted upgrade request, given the accept token
    /// for the client's key.
    pub open spec fn switching_protocols(accept: Seq<char>) -> HandshakeResponseView {
        HandshakeResponseView {
            status: SWITCHING_PROTOCOLS,
            upgrade: "websocket"@,
            connection: "Upgrade"@,
            content_length: 0,
            sec_websocket_accept: accept,
        }
    }

    /// Builds the answer to an accepted upgrade request around the accept
    /// token for the client's key.
    pub fn new(accept: String) -> (response: HandshakeResponse)
        ensures
            response@ == HandshakeResponse::switching_protocols(accept@),
    {
        HandshakeResponse {
            status: SWITCHING_PROTOCOLS,
            upgrade: "websocket".to_owned(),
            connection: "Upgrade".to_owned(),
            content_length: 0,
            sec_websocket_accept: accept,
        }
    }
}

/// Why a request does not open a WebSocket connection.
#[derive(Clone, Copy, Debug, PartialEq, Eq, Structural)]
pub enum HandshakeError {
    /// The method is not `GET`.
    NotGet,
    /// The request has no `Upgrade` header.
    UpgradeMissing,
    /// The `Upgrade` header asks for something other than `websocket`.
    UpgradeMismatch,
    /// The request asks for the upgrade and has no `Sec-WebSocket-Key`
    /// header.
    KeyMissing,
    /// The request asks for the upgrade with a key of 2 to the power 61
    /// bytes or so, for which SHA-1 is not defined: no accept token can
    /// be derived from it.
    KeyTooLong,
}

impl HandshakeError {
    /// An upgrade request without a usable key is fatal to its
    /// connection; every other request that does not open a WebSocket
    /// connection is left to the plain HTTP handler.
    pub open spec fn fatal(self) -> bool {
        self == HandshakeError::KeyMissing || self == HandshakeError::KeyTooLong
    }

    /// Whether the connection must be rejected, not served as plain HTTP.
    pub fn is_fatal(&self) -> (fatal: bool)
        ensures
            fatal == self.fatal(),
    {
        match self {
            HandshakeError::KeyMissing | HandshakeError::KeyTooLong => true,
            _ => false,
        }
    }
}

/// An ASCII upper-case letter as its lower-case letter, every other byte
/// as itself.
pub open spec fn ascii_lowercase(byte: u8) -> u8 {
    if 0x41 <= byte <= 0x5A {
        (byte + 0x20) as u8
    } else {
        byte
    }
}

/// Whether two strings are equal but for the case of their ASCII letters.
pub open spec fn matches_ignoring_ascii_case(a: Seq<char>, b: Seq<char>) -> bool {
    let x = encode_utf8(a);
    let y = encode_utf8(b);
    &&& x.len() == y.len()
    &&& forall|i: int| 0 <= i < x.len() ==> ascii_lowercase(#[trigger] x[i]) == ascii_lowercase(y[i])
}

/// Whether a request asks for the upgrade: its method is `GET` and its
/// `Upgrade` header is `websocket`, in any case of the letters.
pub open spec fn is_upgrade_request(request: HandshakeContextView) -> bool {
    &&& request.method == "GET"@
    &&& request.upgrade matches Some(upgrade) && matches_ignoring_ascii_case(upgrade, "websocket"@)
}

/// What the negotiator makes of a request.
pub open spec fn negotiation(request: HandshakeContextView) -> Result<
    HandshakeResponseView,
    HandshakeError,
> {
    if request.method != "GET"@ {
        Err(HandshakeError::NotGet)
    } else {
        match request.upgrade {
            None => Err(HandshakeError::UpgradeMissing),
            Some(upgrade) => if !matches_ignoring_ascii_case(upgrade, "websocket"@) {
                Err(HandshakeError::UpgradeMismatch)
            } else {
                match request.key {
                    None => Err(HandshakeError::KeyMissing),
                    Some(key) => if key_fits_digest(key) {
                        Ok(HandshakeResponse::switching_protocols(accept_token_of(key)))
                    } else {
                        Err(HandshakeError::KeyTooLong)
                    },
                }
            },
        }
    }
}

/// Whether two strings are the same.
pub fn str_eq(a: &str, b: &str) -> (equal: bool)
    ensures
        equal == (a@ == b@),
{
    let x = a.as_bytes();
    let y = b.as_bytes();
    proof {
        encode_utf8_decode_utf8(a@);
        encode_utf8_decode_utf8(b@);
    }
    if x.len() != y.len() {
        return false;
    }
    let n = x.len();
    let mut i: usize = 0;
    while i < n
        invariant
            i <= n,
            n == x@.len(),
            n == y@.len(),
            x@ == encode_utf8(a@),
            y@ == encode_utf8(b@),
            forall|j: int| 0 <= j < i ==> x@[j] == y@[j],
        decreases n - i,
    {
        if x[i] != y[i] {
            return false;
        }
        i = i + 1;
    }
    assert(x@ =~= y@);
    true
}

/// Whether two strings are equal but for the case of their ASCII letters.
pub fn eq_ignore_ascii_case(a: &str, b: &str) -> (equal: bool)
    ensures
        equal == matches_ignoring_ascii_case(a@, b@),
{
    let x = a.as_bytes();
    let y = b.as_bytes();
    if x.len() != y.len() {
        return false;
    }
    let n = x.len();
    let mut i: usize = 0;
    while i < n
        invariant
            i <= n,
            n == x@.len(),
            n == y@.len(),
            x@ == encode_utf8(a@),
            y@ == encode_utf8(b@),
            forall|j: int| 0 <= j < i ==> ascii_lowercase(#[trigger] x@[j]) == ascii_lowercase(y@[j]),
        decreases n - i,
    {
        if lowercase(x[i]) != lowercase(y[i]) {
            return false;
        }
        i = i + 1;
    }
    true
}

/// An ASCII upper-case letter as its lower-case letter, every other byte
/// as itself.
pub fn lowercase(byte: u8) -> (lower: u8)
    ensures
        lower == ascii_lowercase(byte),
{
    if 0x41 <= byte && byte <= 0x5A {
        byte + 0x20
    } else {
        byte
    }
}

/// Decides whether a request opens a WebSocket connection, and builds the
/// answer if it does.
///
/// A request is an upgrade request if and only if its method is `GET`
/// and its `Upgrade` header is `websocket` in any case of the letters.
/// An upgrade request with a key is answered; one without a key fails
/// with the fatal `KeyMissing`, one with a key too long for SHA-1 with the
/// fatal `KeyTooLong`; every other request fails with the error that says
/// why it is left to the plain HTTP handler.
pub fn try_negotiate(request: &HandshakeContext) -> (result: Result<
    HandshakeResponse,
    HandshakeError,
>)
    ensures
        match negotiation(request@) {
            Ok(response) => result matches Ok(r) && r@ == response,
            Err(e) => result matches Err(x) && x == e,
        },
{
    if !str_eq(request.method.as_str(), "GET") {
        return Err(HandshakeError::NotGet);
    }
    let upgrade = match &request.upgrade {
        None => {
            return Err(HandshakeError::UpgradeMissing);
        },
        Some(upgrade) => upgrade,
    };
    if !eq_ignore_ascii_case(upgrade.as_str(), "websocket") {
        return Err(HandshakeError::UpgradeMismatch);
    }
    let key = match &request.key {
        None => {
            return Err(HandshakeError::KeyMissing);
        },
        Some(key) => key,
    };
    if !fits_digest(key.as_str()) {
        return Err(HandshakeError::KeyTooLong);
    }
    Ok(HandshakeResponse::new(accept_token(key.as_str())))
}

/// The case of the letters of the `Upgrade` header does not matter: two
/// requests that differ in nothing else get the same answer.
pub proof fn lemma_upgrade_case_insensitive(a: HandshakeContextView, b: HandshakeContextView)
    requires
        a.method == b.method,
        a.key == b.key,
        a.upgrade is Some,
        b.upgrade is Some,
        matches_ignoring_ascii_case(a.upgrade->Some_0, b.upgrade->Some_0),
    ensures
        negotiation(a) == negotiation(b),
        is_upgrade_request(a) == is_upgrade_request(b),
{
    let x = encode_utf8(a.upgrade->Some_0);
    let y = encode_utf8(b.upgrade->Some_0);
    let w = encode_utf8("websocket"@);
    assert(x.len() == y.len());
    assert(forall|i: int| 0 <= i < x.len() ==> ascii_lowercase(#[trigger] x[i]) == ascii_lowercase(y[i]));
    if matches_ignoring_ascii_case(a.upgrade->Some_0, "websocket"@) {
        assert forall|i: int| 0 <= i < y.len() implies ascii_lowercase(#[trigger] y[i])
            == ascii_lowercase(w[i]) by {
            assert(ascii_lowercase(x[i]) == ascii_lowercase(y[i]));
            assert(ascii_lowercase(x[i]) == ascii_lowercase(w[i]));
        }
        assert(matches_ignoring_ascii_case(b.upgrade->Some_0, "websocket"@));
    }
    if matches_ignoring_ascii_case(b.upgrade->Some_0, "websocket"@) {
        assert forall|i: int| 0 <= i < x.len() implies ascii_lowercase(#[trigger] x[i])
            == ascii_lowercase(w[i]) by {
            assert(ascii_lowercase(x[i]) == ascii_lowercase(y[i]));
            assert(ascii_lowercase(y[i]) == ascii_lowercase(w[i]));
        }
        assert(matches_ignoring_ascii_case(a.upgrade->Some_0, "websocket"@));
    }
}

/// A request is accepted exactly when it is an upgrade request with a
/// key that a token can be derived from, and fails fatally exactly when
/// it is an upgrade request without such a key.
pub proof fn lemma_negotiation_outcomes(request: HandshakeContextView)
    ensures
        negotiation(request) is Ok <==> is_upgrade_request(request) && has_usable_key(request),
        (negotiation(request) matches Err(e) && e.fatal()) <==> is_upgrade_request(request)
            && !has_usable_key(request),
        negotiation(request) == Err::<HandshakeResponseView, HandshakeError>(
            HandshakeError::KeyMissing,
        ) <==> is_upgrade_request(request) && request.key is None,
{
}

/// Whether a request has a key that an accept token can be derived from.
pub open spec fn has_usable_key(request: HandshakeContextView) -> bool {
    request.key matches Some(key) && key_fits_digest(key)
}

} // verus!
