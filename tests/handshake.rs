use actix_ws::{
    handshake, handshake_response, hash_key, verify_handshake, HandshakeError, HandshakeRequest,
};
use http::StatusCode;

fn request() -> HandshakeRequest {
    HandshakeRequest {
        method: b"GET".to_vec(),
        upgrade: None,
        connection_upgrade: false,
        version: None,
        key: None,
    }
}

fn upgraded(version: &[u8]) -> HandshakeRequest {
    HandshakeRequest {
        upgrade: Some(b"websocket".to_vec()),
        connection_upgrade: true,
        version: Some(version.to_vec()),
        ..request()
    }
}

#[test]
fn test_handshake() {
    let req = HandshakeRequest { method: b"POST".to_vec(), ..request() };
    assert_eq!(HandshakeError::GetMethodRequired, verify_handshake(&req).err().unwrap());

    let req = request();
    assert_eq!(HandshakeError::NoWebsocketUpgrade, verify_handshake(&req).err().unwrap());

    let req = HandshakeRequest { upgrade: Some(b"test".to_vec()), ..request() };
    assert_eq!(HandshakeError::NoWebsocketUpgrade, verify_handshake(&req).err().unwrap());

    let req = HandshakeRequest { upgrade: Some(b"websocket".to_vec()), ..request() };
    assert_eq!(HandshakeError::NoConnectionUpgrade, verify_handshake(&req).err().unwrap());

    let req = HandshakeRequest {
        upgrade: Some(b"websocket".to_vec()),
        connection_upgrade: true,
        ..request()
    };
    assert_eq!(HandshakeError::NoVersionHeader, verify_handshake(&req).err().unwrap());

    let req = upgraded(b"5");
    assert_eq!(HandshakeError::UnsupportedVersion, verify_handshake(&req).err().unwrap());

    let req = upgraded(b"13");
    assert_eq!(HandshakeError::BadWebsocketKey, verify_handshake(&req).err().unwrap());

    let req = HandshakeRequest { key: Some(b"13".to_vec()), ..upgraded(b"13") };
    assert_eq!(StatusCode::SWITCHING_PROTOCOLS.as_u16(), handshake_response(&req).status);
}

#[test]
fn test_wserror_http_response() {
    let resp = HandshakeError::GetMethodRequired.error_response();
    assert_eq!(resp.status, StatusCode::METHOD_NOT_ALLOWED.as_u16());
    let resp = HandshakeError::NoWebsocketUpgrade.error_response();
    assert_eq!(resp.status, StatusCode::BAD_REQUEST.as_u16());
    let resp = HandshakeError::NoConnectionUpgrade.error_response();
    assert_eq!(resp.status, StatusCode::BAD_REQUEST.as_u16());
    let resp = HandshakeError::NoVersionHeader.error_response();
    assert_eq!(resp.status, StatusCode::BAD_REQUEST.as_u16());
    let resp = HandshakeError::UnsupportedVersion.error_response();
    assert_eq!(resp.status, StatusCode::BAD_REQUEST.as_u16());
    let resp = HandshakeError::BadWebsocketKey.error_response();
    assert_eq!(resp.status, StatusCode::BAD_REQUEST.as_u16());
}

#[test]
fn error_response_headers_and_reasons() {
    let resp = HandshakeError::GetMethodRequired.error_response();
    assert_eq!(resp.allow, Some("GET"));
    assert_eq!(resp.reason, None);
    let resp = HandshakeError::NoWebsocketUpgrade.error_response();
    assert_eq!(resp.allow, None);
    assert_eq!(resp.reason, Some("No WebSocket UPGRADE header found"));
    assert_eq!(
        HandshakeError::NoConnectionUpgrade.error_response().reason,
        Some("No CONNECTION upgrade")
    );
    assert_eq!(
        HandshakeError::NoVersionHeader.error_response().reason,
        Some("Websocket version header is required")
    );
    assert_eq!(
        HandshakeError::UnsupportedVersion.error_response().reason,
        Some("Unsupported version")
    );
    assert_eq!(HandshakeError::BadWebsocketKey.error_response().reason, Some("Handshake error"));
}

#[test]
fn accept_key_of_rfc_sample() {
    assert_eq!(hash_key(b"dGhlIHNhbXBsZSBub25jZQ=="), "s3pPLMBiTxaQ9kYGzzhZRbK+xOo=");
}

#[test]
fn handshake_builds_switching_reply() {
    let req = HandshakeRequest { key: Some(b"dGhlIHNhbXBsZSBub25jZQ==".to_vec()), ..upgraded(b"13") };
    let resp = handshake(&req).ok().unwrap();
    assert_eq!(resp.status, 101);
    assert_eq!(resp.upgrade, "websocket");
    assert_eq!(resp.accept, "s3pPLMBiTxaQ9kYGzzhZRbK+xOo=");
}

#[test]
fn handshake_reports_first_failure() {
    let req = HandshakeRequest { method: b"PUT".to_vec(), key: Some(b"k".to_vec()), ..upgraded(b"5") };
    assert_eq!(handshake(&req).err(), Some(HandshakeError::GetMethodRequired));
    let req = HandshakeRequest { upgrade: Some(b"keep-alive".to_vec()), ..upgraded(b"13") };
    assert_eq!(handshake(&req).err(), Some(HandshakeError::NoWebsocketUpgrade));
}

#[test]
fn non_get_method_refused_before_headers() {
    for m in [&b"POST"[..], b"get", b"GETS", b""] {
        let req = HandshakeRequest { method: m.to_vec(), key: Some(b"k".to_vec()), ..upgraded(b"13") };
        assert_eq!(verify_handshake(&req), Err(HandshakeError::GetMethodRequired));
    }
}

#[test]
fn upgrade_keep_alive_is_refused() {
    let req = HandshakeRequest { upgrade: Some(b"keep-alive".to_vec()), ..request() };
    assert_eq!(verify_handshake(&req), Err(HandshakeError::NoWebsocketUpgrade));
}

#[test]
fn version_five_is_unsupported() {
    let req = HandshakeRequest { key: Some(b"k".to_vec()), ..upgraded(b"5") };
    assert_eq!(verify_handshake(&req), Err(HandshakeError::UnsupportedVersion));
}

#[test]
fn supported_versions_and_case_of_upgrade() {
    for v in [&b"13"[..], b"8", b"7"] {
        let req = HandshakeRequest {
            upgrade: Some(b"Upgrade, WebSocket".to_vec()),
            key: Some(b"k".to_vec()),
            ..upgraded(v)
        };
        assert_eq!(verify_handshake(&req), Ok(()));
    }
    let req = HandshakeRequest { key: Some(b"k".to_vec()), ..upgraded(b"") };
    assert_eq!(verify_handshake(&req), Err(HandshakeError::UnsupportedVersion));
}

#[test]
fn upgrade_header_that_is_not_text_is_refused() {
    let req = HandshakeRequest { upgrade: Some(b"websocket\x01".to_vec()), ..upgraded(b"13") };
    assert_eq!(verify_handshake(&req), Err(HandshakeError::NoWebsocketUpgrade));
}

#[test]
fn error_descriptions() {
    assert_eq!(HandshakeError::GetMethodRequired.description(), "Method not allowed");
    assert_eq!(HandshakeError::BadWebsocketKey.description(), "Unknown websocket key");
    assert_eq!(actix_ws::ProtocolError::Overflow.description(), "A payload reached size limit.");
    assert_eq!(actix_ws::ProtocolError::InvalidOpcode(3).description(), "Invalid opcode");
}
