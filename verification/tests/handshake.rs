use websockets::error::Error;
use websockets::frame::MaskDirection;
use websockets::handshake::{Request, Response, WebSocketClientBuilder, WebSocketServerBuilder};
use websockets::key::compute_key_answer;
use websockets::message::WorkerMessage;
use websockets::sender::FrameSender;
use websockets::socket::WebSocket;

fn sha1<T>(bytes: T) -> [u8; 20]
where
    T: AsRef<[u8]>,
{
    sha1::Sha1::from(bytes).digest().bytes()
}

/// The frame a WebSocket masking in `direction` writes for a ping of `data`.
fn ping_frame(direction: MaskDirection, data: &[u8]) -> Vec<u8> {
    let mut ws = WebSocket::new();
    let mut sender = FrameSender::new(direction);
    match ws.ping(data.to_vec()) {
        Ok(WorkerMessage::Send { set_fin, opcode, data }) => {
            sender.send_frame(set_fin, opcode, &data).unwrap()
        },
        _ => panic!("the ping was refused"),
    }
}

fn upgrade_response(request: &Request, salt: &str) -> Response {
    let mut response = Response::new();
    response.status_code = 101;
    response.headers.set_header("Connection", "upgrade");
    response.headers.set_header("Upgrade", "websocket");
    response.headers.set_header(
        "Sec-WebSocket-Accept",
        base64::encode(sha1(request.headers.header_value("Sec-WebSocket-Key").unwrap() + salt)),
    );
    response
}

fn upgrade_request() -> Request {
    let mut request = Request::new();
    request.method = "GET".into();
    request.headers.set_header("Connection", "upgrade");
    request.headers.set_header("Upgrade", "websocket");
    request.headers.set_header("Sec-WebSocket-Version", "13");
    request
}

#[test]
fn initiate_open_as_client() {
    let (_ws, request) = WebSocketClientBuilder::start_open();
    assert_eq!(Some("13"), request.headers.header_value("Sec-WebSocket-Version").as_deref());
    assert!(request.headers.has_header("Sec-WebSocket-Key"));
    let key = request.headers.header_value("Sec-WebSocket-Key");
    assert!(key.is_some());
    assert!(base64::decode(key.unwrap().as_bytes()).is_ok());
    let upgrade = request.headers.header_value("Upgrade");
    assert!(upgrade.is_some());
    assert_eq!("websocket", upgrade.unwrap().to_ascii_lowercase());
    assert!(request.headers.has_header_token("Connection", "upgrade"));
}

#[test]
fn start_open_with_nonce_sends_its_encoding() {
    let (_ws, request) = WebSocketClientBuilder::start_open_with_nonce(*b"the sample nonce");
    assert_eq!("GET", request.method);
    assert_eq!(
        Some("dGhlIHNhbXBsZSBub25jZQ=="),
        request.headers.header_value("Sec-WebSocket-Key").as_deref()
    );
    assert_eq!(Some("upgrade"), request.headers.header_value("Connection").as_deref());
    assert!(WebSocketServerBuilder::open(&request).is_ok());
}

#[test]
fn fail_complete_open_as_client_due_to_missing_upgrade() {
    let (mut ws, request) = WebSocketClientBuilder::start_open();
    let mut response = Response::new();
    response.status_code = 101;
    response.headers.set_header("Connection", "upgrade");
    response.headers.set_header(
        "Sec-WebSocket-Accept",
        base64::encode(sha1(
            request.headers.header_value("Sec-WebSocket-Key").unwrap()
                + "258EAFA5-E914-47DA-95CA-C5AB0DC85B11",
        )),
    );
    assert!(matches!(ws.finish_open(&response), Err(Error::ProtocolNotUpgradedToWebSocket)));
}

#[test]
fn fail_complete_open_as_client_due_to_wrong_upgrade() {
    let (mut ws, request) = WebSocketClientBuilder::start_open();
    let mut response = Response::new();
    response.status_code = 101;
    response.headers.set_header("Connection", "upgrade");
    response.headers.set_header("Upgrade", "foobar");
    response.headers.set_header(
        "Sec-WebSocket-Accept",
        base64::encode(sha1(
            request.headers.header_value("Sec-WebSocket-Key").unwrap()
                + "258EAFA5-E914-47DA-95CA-C5AB0DC85B11",
        )),
    );
    assert!(matches!(ws.finish_open(&response), Err(Error::ProtocolNotUpgradedToWebSocket)));
}

#[test]
fn fail_complete_open_as_client_due_to_missing_connection() {
    let (mut ws, request) = WebSocketClientBuilder::start_open();
    let mut response = Response::new();
    response.status_code = 101;
    response.headers.set_header("Upgrade", "websocket");
    response.headers.set_header(
        "Sec-WebSocket-Accept",
        base64::encode(sha1(
            request.headers.header_value("Sec-WebSocket-Key").unwrap()
                + "258EAFA5-E914-47DA-95CA-C5AB0DC85B11",
        )),
    );
    assert!(matches!(ws.finish_open(&response), Err(Error::ConnectionNotUpgraded)));
}

#[test]
fn fail_complete_open_as_client_due_to_wrong_connection() {
    let (mut ws, request) = WebSocketClientBuilder::start_open();
    let mut response = Response::new();
    response.status_code = 101;
    response.headers.set_header("Connection", "foobar");
    response.headers.set_header("Upgrade", "websocket");
    response.headers.set_header(
        "Sec-WebSocket-Accept",
        base64::encode(sha1(
            request.headers.header_value("Sec-WebSocket-Key").unwrap()
                + "258EAFA5-E914-47DA-95CA-C5AB0DC85B11",
        )),
    );
    assert!(matches!(ws.finish_open(&response), Err(Error::ConnectionNotUpgraded)));
}

#[test]
fn fail_complete_open_as_client_due_to_missing_accept() {
    let (mut ws, _request) = WebSocketClientBuilder::start_open();
    let mut response = Response::new();
    response.status_code = 101;
    response.headers.set_header("Connection", "upgrade");
    response.headers.set_header("Upgrade", "websocket");
    assert!(matches!(ws.finish_open(&response), Err(Error::InvalidHandshakeResponse)));
}

#[test]
fn fail_complete_open_as_client_due_to_wrong_accept() {
    let (mut ws, request) = WebSocketClientBuilder::start_open();
    let response = upgrade_response(&request, "258EAFA5-E914-47DA-95CA-C5AB0DC85B12");
    assert!(matches!(ws.finish_open(&response), Err(Error::InvalidHandshakeResponse)));
}

#[test]
fn fail_complete_open_as_client_due_to_unsupported_extension() {
    let (mut ws, request) = WebSocketClientBuilder::start_open();
    let mut response = upgrade_response(&request, "258EAFA5-E914-47DA-95CA-C5AB0DC85B11");
    response.headers.set_header("Sec-WebSocket-Extensions", "foobar");
    assert!(matches!(ws.finish_open(&response), Err(Error::ExtensionNotRequested)));
}

#[test]
fn succeed_complete_open_as_client_blank_extensions() {
    let (mut ws, request) = WebSocketClientBuilder::start_open();
    let mut response = upgrade_response(&request, "258EAFA5-E914-47DA-95CA-C5AB0DC85B11");
    response.headers.set_header("Sec-WebSocket-Extensions", "");
    assert!(ws.finish_open(&response).is_ok());
}

#[test]
fn fail_complete_open_as_client_due_to_unsupported_protocol() {
    let (mut ws, request) = WebSocketClientBuilder::start_open();
    let mut response = upgrade_response(&request, "258EAFA5-E914-47DA-95CA-C5AB0DC85B11");
    response.headers.set_header("Sec-WebSocket-Protocol", "foobar");
    assert!(matches!(ws.finish_open(&response), Err(Error::SubprotocolNotRequested)));
}

#[test]
fn succeed_complete_open_as_client_blank_protocol() {
    let (mut ws, request) = WebSocketClientBuilder::start_open();
    let mut response = upgrade_response(&request, "258EAFA5-E914-47DA-95CA-C5AB0DC85B11");
    response.headers.set_header("Sec-WebSocket-Protocol", "");
    assert!(ws.finish_open(&response).is_ok());
}

#[test]
fn fail_complete_open_as_client_due_to_wrong_status() {
    let (mut ws, request) = WebSocketClientBuilder::start_open();
    let mut response = upgrade_response(&request, "258EAFA5-E914-47DA-95CA-C5AB0DC85B11");
    response.status_code = 200;
    assert!(matches!(ws.finish_open(&response), Err(Error::ProtocolNotSwitched)));
}

#[test]
fn complete_open_as_client() {
    let (mut ws, request) = WebSocketClientBuilder::start_open();
    let response = upgrade_response(&request, "258EAFA5-E914-47DA-95CA-C5AB0DC85B11");
    let open_result = ws.finish_open(&response);
    assert!(open_result.is_ok());
    let direction = open_result.unwrap();
    assert_eq!(MaskDirection::Transmit, direction);

    // A client masks what it sends.
    let data = "Hello".as_bytes();
    let web_socket_output = ping_frame(direction, data);
    assert_eq!(data.len() + 6, web_socket_output.len());
    assert_eq!(&b"\x89\x85"[..], &web_socket_output[0..2]);
    for (i, byte) in data.iter().enumerate() {
        assert_eq!(byte ^ web_socket_output[2 + (i % 4)], web_socket_output[6 + i]);
    }
}

#[test]
fn complete_open_as_server() {
    let mut request = upgrade_request();
    request.headers.set_header("Sec-WebSocket-Key", "dGhlIHNhbXBsZSBub25jZQ==");
    let open_result = WebSocketServerBuilder::open(&request);
    assert!(open_result.is_ok());
    let (direction, response) = open_result.unwrap();
    assert_eq!(MaskDirection::Receive, direction);
    assert_eq!(101, response.status_code);
    assert_eq!("Switching Protocols", response.reason_phrase);
    assert_eq!(Some("websocket"), response.headers.header_value("Upgrade").as_deref());
    assert!(response.headers.has_header_token("Connection", "upgrade"));
    assert_eq!(
        Some("s3pPLMBiTxaQ9kYGzzhZRbK+xOo="),
        response.headers.header_value("Sec-WebSocket-Accept").as_deref()
    );

    // A server does not mask what it sends.
    assert_eq!(&b"\x89\x05Hello"[..], &ping_frame(direction, b"Hello")[..]);
}

#[test]
fn complete_open_as_server_connection_token_capitalized() {
    let mut request = upgrade_request();
    request.headers.set_header("Connection", "Upgrade");
    request.headers.set_header("Sec-WebSocket-Key", "dGhlIHNhbXBsZSBub25jZQ==");
    assert!(WebSocketServerBuilder::open(&request).is_ok());
}

#[test]
fn fail_complete_open_as_server_not_get_method() {
    let mut request = upgrade_request();
    request.method = "POST".into();
    request.headers.set_header("Connection", "Upgrade");
    request.headers.set_header("Sec-WebSocket-Key", "dGhlIHNhbXBsZSBub25jZQ==");
    assert!(matches!(WebSocketServerBuilder::open(&request), Err(Error::WrongHttpMethod)));
}

#[test]
fn fail_complete_open_as_server_missing_upgrade() {
    let mut request = Request::new();
    request.method = "GET".into();
    request.headers.set_header("Connection", "Upgrade");
    request.headers.set_header("Sec-WebSocket-Version", "13");
    request.headers.set_header("Sec-WebSocket-Key", "dGhlIHNhbXBsZSBub25jZQ==");
    assert!(matches!(
        WebSocketServerBuilder::open(&request),
        Err(Error::ProtocolUpgradeRequstNotAWebSocket)
    ));
}

#[test]
fn fail_complete_open_as_server_wrong_upgrade() {
    let mut request = upgrade_request();
    request.headers.set_header("Connection", "Upgrade");
    request.headers.set_header("Upgrade", "foobar");
    request.headers.set_header("Sec-WebSocket-Key", "dGhlIHNhbXBsZSBub25jZQ==");
    assert!(matches!(
        WebSocketServerBuilder::open(&request),
        Err(Error::ProtocolUpgradeRequstNotAWebSocket)
    ));
}

#[test]
fn fail_complete_open_as_server_missing_connection() {
    let mut request = Request::new();
    request.method = "GET".into();
    request.headers.set_header("Upgrade", "websocket");
    request.headers.set_header("Sec-WebSocket-Version", "13");
    request.headers.set_header("Sec-WebSocket-Key", "dGhlIHNhbXBsZSBub25jZQ==");
    assert!(matches!(WebSocketServerBuilder::open(&request), Err(Error::UpgradeNotRequested)));
}

#[test]
fn fail_complete_open_as_server_wrong_connection() {
    let mut request = upgrade_request();
    request.headers.set_header("Connection", "foobar");
    request.headers.set_header("Sec-WebSocket-Key", "dGhlIHNhbXBsZSBub25jZQ==");
    assert!(matches!(WebSocketServerBuilder::open(&request), Err(Error::UpgradeNotRequested)));
}

#[test]
fn fail_complete_open_as_server_missing_key() {
    let request = upgrade_request();
    assert!(matches!(
        WebSocketServerBuilder::open(&request),
        Err(Error::HandshakeNotProperlyStarted)
    ));
}

#[test]
fn fail_complete_open_as_server_bad_key() {
    let mut request = upgrade_request();

    // First try with a key that is one byte too short.
    request.headers.set_header("Sec-WebSocket-Key", base64::encode("abcdefghijklmno"));
    assert!(matches!(WebSocketServerBuilder::open(&request), Err(Error::InvalidHandshakeRequest)));

    // Next try with a key that is one byte too long.
    request.headers.set_header("Sec-WebSocket-Key", base64::encode("abcdefghijklmnopq"));
    assert!(matches!(WebSocketServerBuilder::open(&request), Err(Error::InvalidHandshakeRequest)));

    // Finally try with a key that is just right.
    request.headers.set_header("Sec-WebSocket-Key", base64::encode("abcdefghijklmnop"));
    assert!(WebSocketServerBuilder::open(&request).is_ok());
}

#[test]
fn fail_complete_open_as_server_undecodable_key() {
    let mut request = upgrade_request();
    request.headers.set_header("Sec-WebSocket-Key", "not base64!");
    assert!(matches!(WebSocketServerBuilder::open(&request), Err(Error::HandshakeKey(_))));
}

#[test]
fn fail_complete_open_as_server_missing_version() {
    let mut request = Request::new();
    request.method = "GET".into();
    request.headers.set_header("Connection", "upgrade");
    request.headers.set_header("Upgrade", "websocket");
    request.headers.set_header("Sec-WebSocket-Key", "dGhlIHNhbXBsZSBub25jZQ==");
    assert!(matches!(
        WebSocketServerBuilder::open(&request),
        Err(Error::UnsupportedProtocolVersion)
    ));
}

#[test]
fn fail_complete_open_as_server_bad_version() {
    let mut request = Request::new();
    request.method = "GET".into();
    request.headers.set_header("Connection", "upgrade");
    request.headers.set_header("Upgrade", "websocket");
    request.headers.set_header("Sec-WebSocket-Key", "dGhlIHNhbXBsZSBub25jZQ==");

    // First, try a version that's too old.
    request.headers.set_header("Sec-WebSocket-Version", "12");
    assert!(matches!(
        WebSocketServerBuilder::open(&request),
        Err(Error::UnsupportedProtocolVersion)
    ));

    // Next, try a version that's too new.
    request.headers.set_header("Sec-WebSocket-Version", "14");
    assert!(matches!(
        WebSocketServerBuilder::open(&request),
        Err(Error::UnsupportedProtocolVersion)
    ));

    // Finally, try a version that's supported.
    request.headers.set_header("Sec-WebSocket-Version", "13");
    assert!(WebSocketServerBuilder::open(&request).is_ok());
}

#[test]
fn key_answer_of_sample_key() {
    assert_eq!(
        Some("s3pPLMBiTxaQ9kYGzzhZRbK+xOo="),
        compute_key_answer(Some("dGhlIHNhbXBsZSBub25jZQ==")).ok().as_deref()
    );
    assert!(matches!(compute_key_answer(None), Err(Error::HandshakeNotProperlyStarted)));
}

#[test]
fn client_accepts_what_the_server_answers() {
    let (mut client, request) = WebSocketClientBuilder::start_open();
    let response = WebSocketServerBuilder::open(&request);
    assert!(response.is_ok());
    assert!(client.finish_open(&response.unwrap().1).is_ok());
}

#[test]
fn client_keys_are_drawn_afresh() {
    let (_first, first) = WebSocketClientBuilder::start_open();
    let (_second, second) = WebSocketClientBuilder::start_open();
    assert_ne!(
        first.headers.header_value("Sec-WebSocket-Key"),
        second.headers.header_value("Sec-WebSocket-Key")
    );
}
