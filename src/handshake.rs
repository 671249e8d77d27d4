//! The opening handshake: deciding whether an HTTP request may become a
//! WebSocket connection, and building the 101 reply.
use base64::Engine;
use sha1::Digest;
use vstd::prelude::*;
use vstd::string::StringSliceAdditionalSpecFns;

use crate::error::HandshakeError;

verus! {

/// The GUID that RFC 6455 appends to the client's key before hashing.
pub const WS_GUID: &'static str = "258EAFA5-E914-47DA-95CA-C5AB0DC85B11";

/// What the handshake reads of an HTTP request, as plain values: the method
/// name, the raw bytes of the relevant headers, and whether the HTTP layer
/// saw a connection-upgrade signal.
pub struct HandshakeRequest {
    pub method: Vec<u8>,
    pub upgrade: Option<Vec<u8>>,
    pub connection_upgrade: bool,
    pub version: Option<Vec<u8>>,
    pub key: Option<Vec<u8>>,
}

/// The `101 Switching Protocols` reply: status, `Upgrade` and
/// `Sec-WebSocket-Accept` header values.
pub struct HandshakeResponse {
    pub status: u16,
    pub upgrade: &'static str,
    pub accept: String,
}

pub open spec fn opt_bytes(o: Option<Vec<u8>>) -> Option<Seq<u8>> {
    match o {
        Some(v) => Some(v@),
        None => None,
    }
}

pub open spec fn is_get(m: Seq<u8>) -> bool {
    m == seq![71u8, 69u8, 84u8]
}

/// A header value that reads as text: visible ASCII or tab.
pub open spec fn visible_ascii(s: Seq<u8>) -> bool {
    forall|i: int| 0 <= i < s.len() ==> #[trigger] is_visible(s[i])
}

pub open spec fn is_visible(c: u8) -> bool {
    (32 <= c && c < 127) || c == 9
}

pub open spec fn ascii_lower(c: u8) -> u8 {
    if 65 <= c && c <= 90 {
        (c + 32) as u8
    } else {
        c
    }
}

/// "websocket" as bytes.
pub open spec fn websocket_word() -> Seq<u8> {
    seq![119u8, 101u8, 98u8, 115u8, 111u8, 99u8, 107u8, 101u8, 116u8]
}

/// The lower-cased `s` holds "websocket" at offset `i`.
pub open spec fn word_at(s: Seq<u8>, i: int) -> bool {
    0 <= i && i + 9 <= s.len() && forall|j: int|
        0 <= j < 9 ==> #[trigger] ascii_lower(s[i + j]) == websocket_word()[j]
}

pub open spec fn names_websocket(s: Seq<u8>) -> bool {
    visible_ascii(s) && exists|i: int| #[trigger] word_at(s, i)
}

/// The `Upgrade` header reads as text and names websocket, in any case.
pub open spec fn upgrade_ok(u: Option<Seq<u8>>) -> bool {
    match u {
        Some(s) => names_websocket(s),
        None => false,
    }
}

pub open spec fn version_ok(v: Seq<u8>) -> bool {
    v == seq![49u8, 51u8] || v == seq![56u8] || v == seq![55u8]
}

/// The outcome of the handshake checks, in their fixed order.
pub open spec fn handshake_check(
    method: Seq<u8>,
    upgrade: Option<Seq<u8>>,
    connection_upgrade: bool,
    version: Option<Seq<u8>>,
    key: Option<Seq<u8>>,
) -> Result<(), HandshakeError> {
    if !is_get(method) {
        Err(HandshakeError::GetMethodRequired)
    } else if !upgrade_ok(upgrade) {
        Err(HandshakeError::NoWebsocketUpgrade)
    } else if !connection_upgrade {
        Err(HandshakeError::NoConnectionUpgrade)
    } else if version is None {
        Err(HandshakeError::NoVersionHeader)
    } else if !version_ok(version->0) {
        Err(HandshakeError::UnsupportedVersion)
    } else if key is None {
        Err(HandshakeError::BadWebsocketKey)
    } else {
        Ok(())
    }
}

/// A request whose method is not GET is refused for that, whatever its
/// headers hold: the method is checked before any header.
pub proof fn lemma_method_checked_first(
    method: Seq<u8>,
    upgrade: Option<Seq<u8>>,
    connection_upgrade: bool,
    version: Option<Seq<u8>>,
    key: Option<Seq<u8>>,
)
    requires
        !is_get(method),
    ensures
        handshake_check(method, upgrade, connection_upgrade, version, key) == Err::<
            (),
            HandshakeError,
        >(HandshakeError::GetMethodRequired),
{
}

impl HandshakeRequest {
    pub open spec fn check(&self) -> Result<(), HandshakeError> {
        handshake_check(
            self.method@,
            opt_bytes(self.upgrade),
            self.connection_upgrade,
            opt_bytes(self.version),
            opt_bytes(self.key),
        )
    }
}

/// SHA-1 digest of a byte string.
pub uninterp spec fn sha1_of(data: Seq<u8>) -> Seq<u8>;

/// Standard base64 text (with padding) of a byte string.
pub uninterp spec fn base64_of(data: Seq<u8>) -> Seq<char>;

/// The `Sec-WebSocket-Accept` value owed for a client key.
pub open spec fn accept_key(key: Seq<u8>) -> Seq<char> {
    base64_of(sha1_of(key + WS_GUID.spec_bytes()))
}

/// Relies on sha1's `Digest::digest` for `Sha1`: the digest of the bytes given.
#[verifier::external_body]
fn sha1_digest(data: &[u8]) -> (r: Vec<u8>)
    ensures
        r@ == sha1_of(data@),
{
    sha1::Sha1::digest(data).to_vec()
}

/// Relies on base64's `Engine::encode` with the `STANDARD` engine.
#[verifier::external_body]
fn base64_encode(data: &[u8]) -> (r: String)
    ensures
        r@ == base64_of(data@),
{
    base64::engine::general_purpose::STANDARD.encode(data)
}

/// Hash a client's `Sec-WebSocket-Key` into the matching accept value.
pub fn hash_key(key: &[u8]) -> (r: String)
    ensures
        r@ == accept_key(key@),
{
    let guid = WS_GUID.as_bytes();
    let mut buf: Vec<u8> = Vec::new();
    let mut i: usize = 0;
    while i < key.len()
        invariant
            i <= key@.len(),
            buf@ == key@.subrange(0, i as int),
        decreases key@.len() - i,
    {
        buf.push(key[i]);
        i = i + 1;
    }
    let mut j: usize = 0;
    while j < guid.len()
        invariant
            j <= guid@.len(),
            guid@ == WS_GUID.spec_bytes(),
            buf@ == key@ + guid@.subrange(0, j as int),
        decreases guid@.len() - j,
    {
        buf.push(guid[j]);
        j = j + 1;
    }
    assert(key@.subrange(0, key@.len() as int) == key@);
    assert(guid@.subrange(0, guid@.len() as int) == guid@);
    let digest = sha1_digest(buf.as_slice());
    base64_encode(digest.as_slice())
}

fn bytes_are_get(m: &Vec<u8>) -> (r: bool)
    ensures
        r == is_get(m@),
{
    if m.len() == 3 && m[0] == 71 && m[1] == 69 && m[2] == 84 {
        assert(m@ =~= seq![71u8, 69u8, 84u8]);
        true
    } else {
        false
    }
}

fn lower(c: u8) -> (r: u8)
    ensures
        r == ascii_lower(c),
{
    if 65 <= c && c <= 90 {
        c + 32
    } else {
        c
    }
}

fn websocket_at(s: &Vec<u8>, i: usize) -> (r: bool)
    requires
        i + 9 <= s.len(),
    ensures
        r == word_at(s@, i as int),
{
    let word: [u8; 9] = [119u8, 101u8, 98u8, 115u8, 111u8, 99u8, 107u8, 101u8, 116u8];
    assert(word@ =~= websocket_word());
    let mut j: usize = 0;
    while j < 9
        invariant
            j <= 9,
            i + 9 <= s.len(),
            word@ == websocket_word(),
            forall|k: int| 0 <= k < j ==> #[trigger] ascii_lower(s@[i + k]) == websocket_word()[k],
        decreases 9 - j,
    {
        if lower(s[i + j]) != word[j] {
            return false;
        }
        j = j + 1;
    }
    true
}

fn upgrade_names_websocket(u: &Option<Vec<u8>>) -> (r: bool)
    ensures
        r == upgrade_ok(opt_bytes(*u)),
{
    match u {
        None => false,
        Some(s) => {
            let mut i: usize = 0;
            assert(opt_bytes(*u) == Some(s@));
            while i < s.len()
                invariant
                    i <= s@.len(),
                    opt_bytes(*u) == Some(s@),
                    forall|k: int| 0 <= k < i ==> #[trigger] is_visible(s@[k]),
                decreases s@.len() - i,
            {
                let c = s[i];
                if !((32 <= c && c < 127) || c == 9) {
                    assert(!is_visible(s@[i as int]));
                    assert(opt_bytes(*u) == Some(s@));
                    return false;
                }
                i = i + 1;
            }
            assert(visible_ascii(s@));
            if s.len() < 9 {
                assert(opt_bytes(*u) == Some(s@));
                assert(forall|k: int| !word_at(s@, k));
                return false;
            }
            let mut p: usize = 0;
            assert(opt_bytes(*u) == Some(s@));
            while p <= s.len() - 9
                invariant
                    9 <= s@.len(),
                    p + 9 <= s@.len() + 1,
                    visible_ascii(s@),
                    opt_bytes(*u) == Some(s@),
                    forall|k: int| 0 <= k < p ==> !#[trigger] word_at(s@, k),
                decreases s@.len() + 1 - p,
            {
                if websocket_at(s, p) {
                    assert(word_at(s@, p as int));
                    assert(names_websocket(s@));
                    return true;
                }
                p = p + 1;
            }
            assert(forall|k: int| !#[trigger] word_at(s@, k));
            false
        },
    }
}

fn version_supported(v: &Vec<u8>) -> (r: bool)
    ensures
        r == version_ok(v@),
{
    if v.len() == 2 && v[0] == 49 && v[1] == 51 {
        assert(v@ =~= seq![49u8, 51u8]);
        true
    } else if v.len() == 1 && (v[0] == 56 || v[0] == 55) {
        assert(v@ =~= seq![v@[0]]);
        true
    } else {
        false
    }
}

/// Verify a `WebSocket` handshake request. The checks run in a fixed order
/// and the first one that fails gives the error.
pub fn verify_handshake(req: &HandshakeRequest) -> (r: Result<(), HandshakeError>)
    ensures
        r == req.check(),
{
    if !bytes_are_get(&req.method) {
        return Err(HandshakeError::GetMethodRequired);
    }
    if !upgrade_names_websocket(&req.upgrade) {
        return Err(HandshakeError::NoWebsocketUpgrade);
    }
    if !req.connection_upgrade {
        return Err(HandshakeError::NoConnectionUpgrade);
    }
    match &req.version {
        None => {
            return Err(HandshakeError::NoVersionHeader);
        },
        Some(v) => {
            if !version_supported(v) {
                return Err(HandshakeError::UnsupportedVersion);
            }
        },
    }
    if req.key.is_none() {
        return Err(HandshakeError::BadWebsocketKey);
    }
    Ok(())
}

/// Build the handshake reply for a request that carries a key.
pub fn handshake_response(req: &HandshakeRequest) -> (r: HandshakeResponse)
    requires
        req.key is Some,
    ensures
        r.status == 101,
        r.upgrade@ == "websocket"@,
        r.accept@ == accept_key(req.key->0@),
{
    let key = match &req.key {
        Some(k) => k,
        None => {
            proof {
                assert(false);
            }
            return HandshakeResponse { status: 101, upgrade: "websocket", accept: String::new() };
        },
    };
    HandshakeResponse { status: 101, upgrade: "websocket", accept: hash_key(key.as_slice()) }
}

/// Verify a handshake request and, when it passes, build the reply.
pub fn handshake(req: &HandshakeRequest) -> (r: Result<HandshakeResponse, HandshakeError>)
    ensures
        req.check() is Err ==> r == Err::<HandshakeResponse, HandshakeError>(req.check()->Err_0),
        req.check() is Ok <==> r is Ok,
        r is Ok ==> r->Ok_0.status == 101 && r->Ok_0.upgrade@ == "websocket"@
            && r->Ok_0.accept@ == accept_key(req.key->0@),
{
    match verify_handshake(req) {
        Err(e) => Err(e),
        Ok(()) => Ok(handshake_response(req)),
    }
}

} // verus!
