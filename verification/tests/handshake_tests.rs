use game_server::handshake::{
    format_bits, handle_request, handshake_for_headers, make_ws_accept, try_handle_request,
    HttpHeader,
};

#[test]
fn accept_value_of_rfc_example() {
    assert_eq!(
        make_ws_accept("dGhlIHNhbXBsZSBub25jZQ==".to_string()),
        "s3pPLMBiTxaQ9kYGzzhZRbK+xOo="
    );
}

#[test]
fn accept_value_of_empty_key() {
    assert_eq!(make_ws_accept(String::new()), "Kfh9QIsMVZcl6xEPYxPHzW8SZ8w=");
}

#[test]
fn complete_request_is_accepted() {
    let req = "GET /chat HTTP/1.1\r\nHost: example.com\r\nUpgrade: websocket\r\nSec-WebSocket-Key: dGhlIHNhbXBsZSBub25jZQ==\r\n\r\n";
    let resp = handle_request(req.to_string());
    assert_eq!(
        resp,
        "HTTP/1.1 101 Switching Protocols\r\nUpgrade: websocket\r\nConnection: Upgrade\r\nSec-WebSocket-Accept: s3pPLMBiTxaQ9kYGzzhZRbK+xOo=\r\n\r\n"
    );
}

#[test]
fn incomplete_request_gets_empty_answer() {
    let req = "GET /chat HTTP/1.1\r\nHost: example.com\r\n";
    assert_eq!(handle_request(req.to_string()), "");
    assert_eq!(try_handle_request(req.to_string()), Some(String::new()));
}

#[test]
fn request_without_key_uses_empty_key() {
    let req = "GET / HTTP/1.1\r\nHost: h\r\n\r\n";
    assert_eq!(
        handle_request(req.to_string()),
        "HTTP/1.1 101 Switching Protocols\r\nUpgrade: websocket\r\nConnection: Upgrade\r\nSec-WebSocket-Accept: Kfh9QIsMVZcl6xEPYxPHzW8SZ8w=\r\n\r\n"
    );
}

#[test]
fn too_many_headers_has_no_answer() {
    let mut req = String::from("GET / HTTP/1.1\r\n");
    for i in 0..17 {
        req += &format!("X-H{}: v\r\n", i);
    }
    req += "\r\n";
    assert_eq!(try_handle_request(req), None);
}

#[test]
fn invalid_request_has_no_answer() {
    assert_eq!(try_handle_request("\x01\x02 nonsense\r\n\r\n".to_string()), None);
}

#[test]
fn last_key_header_wins() {
    let headers = vec![
        HttpHeader { name: "Sec-WebSocket-Key".to_string(), value: b"first".to_vec() },
        HttpHeader { name: "Host".to_string(), value: b"x".to_vec() },
        HttpHeader { name: "Sec-WebSocket-Key".to_string(), value: b"dGhlIHNhbXBsZSBub25jZQ==".to_vec() },
    ];
    assert!(handshake_for_headers(&headers).contains("s3pPLMBiTxaQ9kYGzzhZRbK+xOo="));
}

#[test]
fn bits_are_shown_least_significant_first() {
    assert_eq!(format_bits(&vec![1, 0x80, 0xa5]), "10000000\n00000001\n10100101\n");
    assert_eq!(format_bits(&vec![]), "");
}

#[test]
fn accept_value_shape() {
    for key in ["", "a", "dGhlIHNhbXBsZSBub25jZQ==", "some other key"] {
        let a = make_ws_accept(key.to_string());
        assert_eq!(a.len(), 28);
        assert!(a.ends_with('='));
    }
}
