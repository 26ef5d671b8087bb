//! The opening handshake (RFC 6455, section 4): the server's checks of the
//! client's upgrade request and its response, and the client's request and
//! its checks of the server's response.

use vstd::prelude::*;
use vstd::string::StringExecFns;
use rhymessage::MessageHeaders;
use crate::entropy::{fill_random, seeded_rng};
use crate::error::Error;
use crate::frame::MaskDirection;
use crate::headers::{
    all_ascii, lemma_join_push, lemma_names_differ, lemma_set_new_header, lemma_single_token,
    lemma_tokens_push, value_tokens, eq_ignore_ascii_case, eq_ignoring_ascii_case, ascii_lowercase, has_header_token, header_list,
    header_tokens, header_tokens_of, header_value, header_value_of, new_headers, set_header,
    with_header_set,
};
use crate::key::{
    KeyFault, REQUIRED_WEBSOCKET_KEY_LENGTH, base64_encode, base64_encoded, compute_key_answer,
    key_check, reports_key,
};

verus! {

/// The version of the WebSocket protocol supported.
pub const CURRENTLY_SUPPORTED_WEBSOCKET_VERSION: &'static str = "13";

/// The parts of an HTTP request that the opening handshake reads and
/// writes: its method and its headers.
pub struct Request {
    pub method: String,
    pub headers: MessageHeaders,
}

impl Request {
    /// A `GET` request with no headers.
    pub fn new() -> (request: Self)
        ensures
            request.method@ == "GET"@,
            header_list(request.headers) == Seq::<(Seq<char>, Seq<char>)>::empty(),
    {
        Request { method: String::from_str("GET"), headers: new_headers() }
    }
}

/// The parts of an HTTP response that the opening handshake reads and
/// writes: its status code, reason phrase and headers.
pub struct Response {
    pub status_code: usize,
    pub reason_phrase: String,
    pub headers: MessageHeaders,
}

impl Response {
    /// A `200 OK` response with no headers.
    pub fn new() -> (response: Self)
        ensures
            response.status_code == 200,
            response.reason_phrase@ == "OK"@,
            header_list(response.headers) == Seq::<(Seq<char>, Seq<char>)>::empty(),
    {
        Response { status_code: 200, reason_phrase: String::from_str("OK"), headers: new_headers() }
    }
}

/// Why the server refuses an upgrade request.
pub enum ServerFault {
    WrongHttpMethod,
    UpgradeNotRequested,
    NotAWebSocket,
    UnsupportedVersion,
    Key(KeyFault),
}

/// The `Sec-WebSocket-Accept` value with which the server accepts a request
/// with this method and these headers, or why it refuses it.  The checks
/// come in this order: the method is `GET`; the `Connection` header has the
/// token `upgrade`; the `Upgrade` header is `websocket` in any ASCII case;
/// the `Sec-WebSocket-Version` header is `13`; the `Sec-WebSocket-Key` is a
/// proper key.
pub open spec fn server_handshake(
    method: Seq<char>,
    headers: Seq<(Seq<char>, Seq<char>)>,
) -> Result<Seq<char>, ServerFault> {
    if method != "GET"@ {
        Err(ServerFault::WrongHttpMethod)
    } else if !header_tokens_of(headers, "Connection"@).contains(ascii_lowercase("upgrade"@)) {
        Err(ServerFault::UpgradeNotRequested)
    } else if !(header_value_of(headers, "Upgrade"@) matches Some(v) && eq_ignoring_ascii_case(
        v,
        "websocket"@,
    )) {
        Err(ServerFault::NotAWebSocket)
    } else if header_value_of(headers, "Sec-WebSocket-Version"@) != Some("13"@) {
        Err(ServerFault::UnsupportedVersion)
    } else {
        match key_check(header_value_of(headers, "Sec-WebSocket-Key"@)) {
            Ok(answer) => Ok(answer),
            Err(fault) => Err(ServerFault::Key(fault)),
        }
    }
}

/// `error` is the error by which the server reports `fault`.
pub open spec fn reports_server(error: Error, fault: ServerFault) -> bool {
    match fault {
        ServerFault::WrongHttpMethod => error is WrongHttpMethod,
        ServerFault::UpgradeNotRequested => error is UpgradeNotRequested,
        ServerFault::NotAWebSocket => error is ProtocolUpgradeRequstNotAWebSocket,
        ServerFault::UnsupportedVersion => error is UnsupportedProtocolVersion,
        ServerFault::Key(k) => reports_key(error, k),
    }
}

/// The headers of the server's response accepting a request with `answer`.
pub open spec fn server_response_headers(answer: Seq<char>) -> Seq<(Seq<char>, Seq<char>)> {
    with_header_set(
        with_header_set(with_header_set(seq![], "Connection"@, "upgrade"@), "Upgrade"@, "websocket"@),
        "Sec-WebSocket-Accept"@,
        answer,
    )
}

/// Checks a client's upgrade request and builds the server's response,
/// together with the direction in which the WebSocket that then runs over
/// the connection masks: a server expects what it receives to be masked.
pub fn open_server(request: &Request) -> (result: Result<(MaskDirection, Response), Error>)
    ensures
        match result {
            Ok((direction, response)) => {
                &&& direction == MaskDirection::Receive
                &&& server_handshake(request.method@, header_list(request.headers)) matches Ok(
                    answer,
                )
                &&& response.status_code == 101
                &&& response.reason_phrase@ == "Switching Protocols"@
                &&& header_list(response.headers) == server_response_headers(answer)
            },
            Err(e) => server_handshake(request.method@, header_list(request.headers)) matches Err(
                fault,
            ) && reports_server(e, fault),
        },
{
    if request.method != String::from_str("GET") {
        return Err(Error::WrongHttpMethod);
    }
    if !has_header_token(&request.headers, "Connection", "upgrade") {
        return Err(Error::UpgradeNotRequested);
    }
    match header_value(&request.headers, "Upgrade") {
        Some(value) => {
            if !eq_ignore_ascii_case(value.as_str(), "websocket") {
                return Err(Error::ProtocolUpgradeRequstNotAWebSocket);
            }
        },
        None => {
            return Err(Error::ProtocolUpgradeRequstNotAWebSocket);
        },
    }
    match header_value(&request.headers, "Sec-WebSocket-Version") {
        Some(value) => {
            if value != String::from_str(CURRENTLY_SUPPORTED_WEBSOCKET_VERSION) {
                return Err(Error::UnsupportedProtocolVersion);
            }
        },
        None => {
            return Err(Error::UnsupportedProtocolVersion);
        },
    }
    let mut headers = new_headers();
    set_header(&mut headers, "Connection", "upgrade");
    set_header(&mut headers, "Upgrade", "websocket");
    let key = header_value(&request.headers, "Sec-WebSocket-Key");
    let answer = match key {
        Some(key) => compute_key_answer(Some(key.as_str())),
        None => compute_key_answer(None),
    };
    let answer = match answer {
        Ok(answer) => answer,
        Err(e) => {
            return Err(e);
        },
    };
    set_header(&mut headers, "Sec-WebSocket-Accept", answer.as_str());
    Ok(
        (
            MaskDirection::Receive,
            Response {
                status_code: 101,
                reason_phrase: String::from_str("Switching Protocols"),
                headers,
            },
        ),
    )
}

/// The server side of the opening handshake.
pub struct WebSocketServerBuilder {}

impl WebSocketServerBuilder {
    /// Checks a client's upgrade request and builds the server's response,
    /// as [`open_server`] does.
    pub fn open(request: &Request) -> (result: Result<(MaskDirection, Response), Error>)
        ensures
            match result {
                Ok((direction, response)) => {
                    &&& direction == MaskDirection::Receive
                    &&& server_handshake(request.method@, header_list(request.headers)) matches Ok(
                        answer,
                    )
                    &&& response.status_code == 101
                    &&& response.reason_phrase@ == "Switching Protocols"@
                    &&& header_list(response.headers) == server_response_headers(answer)
                },
                Err(e) => server_handshake(request.method@, header_list(request.headers)) matches Err(
                    fault,
                ) && reports_server(e, fault),
            },
    {
        open_server(request)
    }
}

/// The texts of `parts` joined with `separator` between each two, as
/// `[String]::join` joins them.
pub open spec fn joined(parts: Seq<Seq<char>>, separator: Seq<char>) -> Seq<char>
    decreases parts.len(),
{
    if parts.len() == 0 {
        seq![]
    } else if parts.len() == 1 {
        parts[0]
    } else {
        joined(parts.drop_last(), separator) + separator + parts.last()
    }
}

/// Joins the texts of `parts` with `separator` between each two.
fn join(parts: &Vec<String>, separator: &str) -> (text: String)
    ensures
        text@ == joined(parts@.map_values(|p: String| p@), separator@),
{
    let ghost views = parts@.map_values(|p: String| p@);
    let mut text = String::new();
    let mut i: usize = 0;
    while i < parts.len()
        invariant
            i <= parts@.len(),
            views == parts@.map_values(|p: String| p@),
            text@ == joined(views.take(i as int), separator@),
        decreases parts@.len() - i,
    {
        if i != 0 {
            text.append(separator);
        }
        text.append(parts[i].as_str());
        assert(views.take((i + 1) as int).drop_last() =~= views.take(i as int));
        i = i + 1;
    }
    assert(views.take(parts@.len() as int) =~= views);
    text
}

/// The headers of the client's upgrade request carrying `key`: the version,
/// the key, `Upgrade: websocket`, and the token `upgrade` added to those of
/// the `Connection` header.
pub open spec fn client_request_headers(key: Seq<char>) -> Seq<(Seq<char>, Seq<char>)> {
    let base = with_header_set(
        with_header_set(with_header_set(seq![], "Sec-WebSocket-Version"@, "13"@), "Sec-WebSocket-Key"@, key),
        "Upgrade"@,
        "websocket"@,
    );
    with_header_set(
        base,
        "Connection"@,
        joined(header_tokens_of(base, "Connection"@).push("upgrade"@), ", "@),
    )
}

/// Why the client refuses the server's response.
pub enum ClientFault {
    ProtocolNotSwitched,
    ConnectionNotUpgraded,
    NotUpgradedToWebSocket,
    InvalidAccept,
    Key(KeyFault),
    ExtensionNotRequested,
    SubprotocolNotRequested,
}

/// Whether the client that sent `key` accepts a response with this status
/// code and these headers, or why not.  The checks come in this order: the
/// status is 101; the `Connection` header has the token `upgrade`; the
/// `Upgrade` header is `websocket` in any ASCII case; the
/// `Sec-WebSocket-Accept` header answers the key; no extension and no
/// subprotocol is announced.
pub open spec fn client_handshake(
    key: Seq<char>,
    status_code: usize,
    headers: Seq<(Seq<char>, Seq<char>)>,
) -> Result<(), ClientFault> {
    if status_code != 101 {
        Err(ClientFault::ProtocolNotSwitched)
    } else if !header_tokens_of(headers, "Connection"@).contains(ascii_lowercase("upgrade"@)) {
        Err(ClientFault::ConnectionNotUpgraded)
    } else if !(header_value_of(headers, "Upgrade"@) matches Some(v) && eq_ignoring_ascii_case(
        v,
        "websocket"@,
    )) {
        Err(ClientFault::NotUpgradedToWebSocket)
    } else {
        match header_value_of(headers, "Sec-WebSocket-Accept"@) {
            None => Err(ClientFault::InvalidAccept),
            Some(accept) => match key_check(Some(key)) {
                Err(fault) => Err(ClientFault::Key(fault)),
                Ok(answer) => if accept != answer {
                    Err(ClientFault::InvalidAccept)
                } else if header_tokens_of(headers, "Sec-WebSocket-Extensions"@).len() > 0 {
                    Err(ClientFault::ExtensionNotRequested)
                } else if header_tokens_of(headers, "Sec-WebSocket-Protocol"@).len() > 0 {
                    Err(ClientFault::SubprotocolNotRequested)
                } else {
                    Ok(())
                },
            },
        }
    }
}

/// `error` is the error by which the client reports `fault`.
pub open spec fn reports_client(error: Error, fault: ClientFault) -> bool {
    match fault {
        ClientFault::ProtocolNotSwitched => error is ProtocolNotSwitched,
        ClientFault::ConnectionNotUpgraded => error is ConnectionNotUpgraded,
        ClientFault::NotUpgradedToWebSocket => error is ProtocolNotUpgradedToWebSocket,
        ClientFault::InvalidAccept => error is InvalidHandshakeResponse,
        ClientFault::Key(k) => reports_key(error, k),
        ClientFault::ExtensionNotRequested => error is ExtensionNotRequested,
        ClientFault::SubprotocolNotRequested => error is SubprotocolNotRequested,
    }
}

/// The client side of the opening handshake: it remembers the key it sent.
#[derive(Debug)]
pub struct WebSocketClientBuilder {
    key: String,
}

impl WebSocketClientBuilder {
    /// The key this client sent in its upgrade request.
    pub closed spec fn key(&self) -> Seq<char> {
        self.key@
    }

    /// Builds the upgrade request carrying the Base64 encoding of `nonce` as
    /// its key.
    pub fn start_open_with_nonce(nonce: [u8; 16]) -> (opened: (Self, Request))
        ensures
            opened.0.key() == base64_encoded(nonce@),
            opened.1.method@ == "GET"@,
            header_list(opened.1.headers) == client_request_headers(opened.0.key()),
            server_handshake(opened.1.method@, header_list(opened.1.headers)) == Ok::<
                Seq<char>,
                ServerFault,
            >(crate::key::key_answer(opened.0.key())),
    {
        let mut request = Request::new();
        set_header(&mut request.headers, "Sec-WebSocket-Version", CURRENTLY_SUPPORTED_WEBSOCKET_VERSION);
        let key = base64_encode(&nonce);
        set_header(&mut request.headers, "Sec-WebSocket-Key", key.as_str());
        set_header(&mut request.headers, "Upgrade", "websocket");
        let mut connection_tokens = header_tokens(&request.headers, "Connection");
        connection_tokens.push(String::from_str("upgrade"));
        let connection = join(&connection_tokens, ", ");
        assert(connection_tokens@.map_values(|p: String| p@) =~= header_tokens_of(
            with_header_set(
                with_header_set(with_header_set(seq![], "Sec-WebSocket-Version"@, "13"@), "Sec-WebSocket-Key"@, key@),
                "Upgrade"@,
                "websocket"@,
            ),
            "Connection"@,
        ).push("upgrade"@));
        set_header(&mut request.headers, "Connection", connection.as_str());
        proof {
            lemma_server_accepts_client_request(key@, nonce@);
        }
        (WebSocketClientBuilder { key }, request)
    }

    /// Builds the upgrade request, with a key drawn at random.
    pub fn start_open() -> (opened: (Self, Request))
        ensures
            exists|nonce: Seq<u8>|
                nonce.len() == REQUIRED_WEBSOCKET_KEY_LENGTH && opened.0.key() == base64_encoded(
                    nonce,
                ),
            opened.1.method@ == "GET"@,
            header_list(opened.1.headers) == client_request_headers(opened.0.key()),
            server_handshake(opened.1.method@, header_list(opened.1.headers)) == Ok::<
                Seq<char>,
                ServerFault,
            >(crate::key::key_answer(opened.0.key())),
    {
        let mut rng = seeded_rng();
        let mut nonce = [0u8; 16];
        fill_random(&mut rng, &mut nonce);
        assert(nonce@.len() == REQUIRED_WEBSOCKET_KEY_LENGTH);
        Self::start_open_with_nonce(nonce)
    }

    /// Checks the server's response to the upgrade request.  On success it
    /// gives the direction in which the WebSocket that then runs over the
    /// connection masks: a client masks what it transmits.
    pub fn finish_open(&mut self, response: &Response) -> (result: Result<MaskDirection, Error>)
        ensures
            final(self).key() == old(self).key(),
            match result {
                Ok(direction) => direction == MaskDirection::Transmit && client_handshake(
                    old(self).key(),
                    response.status_code,
                    header_list(response.headers),
                ) is Ok,
                Err(e) => client_handshake(
                    old(self).key(),
                    response.status_code,
                    header_list(response.headers),
                ) matches Err(fault) && reports_client(e, fault),
            },
    {
        if response.status_code != 101 {
            return Err(Error::ProtocolNotSwitched);
        }
        if !has_header_token(&response.headers, "Connection", "upgrade") {
            return Err(Error::ConnectionNotUpgraded);
        }
        match header_value(&response.headers, "Upgrade") {
            Some(value) => {
                if !eq_ignore_ascii_case(value.as_str(), "websocket") {
                    return Err(Error::ProtocolNotUpgradedToWebSocket);
                }
            },
            None => {
                return Err(Error::ProtocolNotUpgradedToWebSocket);
            },
        }
        match header_value(&response.headers, "Sec-WebSocket-Accept") {
            Some(value) => {
                let answer = match compute_key_answer(Some(self.key.as_str())) {
                    Ok(answer) => answer,
                    Err(e) => {
                        return Err(e);
                    },
                };
                if value != answer {
                    return Err(Error::InvalidHandshakeResponse);
                }
            },
            None => {
                return Err(Error::InvalidHandshakeResponse);
            },
        }
        if header_tokens(&response.headers, "Sec-WebSocket-Extensions").len() != 0 {
            return Err(Error::ExtensionNotRequested);
        }
        if header_tokens(&response.headers, "Sec-WebSocket-Protocol").len() != 0 {
            return Err(Error::SubprotocolNotRequested);
        }
        Ok(MaskDirection::Transmit)
    }
}

/// Facts about the header names and values of the handshake: they are
/// ASCII, of pairwise different lengths, and `upgrade` is its own single
/// token.
proof fn lemma_handshake_texts()
    ensures
        all_ascii("Connection"@),
        all_ascii("Upgrade"@),
        all_ascii("Sec-WebSocket-Accept"@),
        all_ascii("Sec-WebSocket-Key"@),
        all_ascii("Sec-WebSocket-Version"@),
        all_ascii("Sec-WebSocket-Extensions"@),
        all_ascii("Sec-WebSocket-Protocol"@),
        "Connection"@.len() == 10,
        "Upgrade"@.len() == 7,
        "Sec-WebSocket-Accept"@.len() == 20,
        "Sec-WebSocket-Key"@.len() == 17,
        "Sec-WebSocket-Version"@.len() == 21,
        "Sec-WebSocket-Extensions"@.len() == 24,
        "Sec-WebSocket-Protocol"@.len() == 22,
        value_tokens("upgrade"@) == seq!["upgrade"@],
        ascii_lowercase("upgrade"@) == "upgrade"@,
        joined(seq!["upgrade"@], ", "@) == "upgrade"@,
{
    reveal_strlit("Connection");
    reveal_strlit("Upgrade");
    reveal_strlit("Sec-WebSocket-Accept");
    reveal_strlit("Sec-WebSocket-Key");
    reveal_strlit("Sec-WebSocket-Version");
    reveal_strlit("Sec-WebSocket-Extensions");
    reveal_strlit("Sec-WebSocket-Protocol");
    reveal_strlit("upgrade");
    let up = "upgrade"@;
    assert(ascii_lowercase(up) =~= up);
    assert(!up.contains(',')) by {
        if up.contains(',') {
            let i = choose|i: int| 0 <= i < up.len() && up[i] == ',';
        }
    }
    lemma_single_token(up);
}

/// A client accepts the response that the server builds for the client's
/// key, whenever the key is a proper one.
pub proof fn theorem_client_accepts_server_response(key: Seq<char>)
    requires
        key_check(Some(key)) is Ok,
    ensures
        client_handshake(key, 101, server_response_headers(key_check(Some(key))->Ok_0)) == Ok::<
            (),
            ClientFault,
        >(()),
{
    lemma_handshake_texts();
    let answer = key_check(Some(key))->Ok_0;
    let c = "Connection"@;
    let u = "Upgrade"@;
    let a = "Sec-WebSocket-Accept"@;
    let empty = Seq::<(Seq<char>, Seq<char>)>::empty();
    let l1 = empty.push((c, "upgrade"@));
    let l2 = l1.push((u, "websocket"@));
    let l3 = l2.push((a, answer));
    lemma_set_new_header(empty, c, "upgrade"@);
    assert(seq![].push((c, "upgrade"@)) == l1);
    lemma_names_differ(c, u);
    lemma_names_differ(c, a);
    lemma_names_differ(u, a);
    lemma_set_new_header(l1, u, "websocket"@);
    lemma_set_new_header(l2, a, answer);
    assert(server_response_headers(answer) == l3);
    // The `Connection` header holds the single token `upgrade`.
    lemma_tokens_push(empty, (c, "upgrade"@), c);
    lemma_tokens_push(l1, (u, "websocket"@), c);
    lemma_tokens_push(l2, (a, answer), c);
    assert(header_tokens_of(empty, c) =~= seq![]);
    assert(eq_ignoring_ascii_case(c, c));
    assert(header_tokens_of(l3, c) =~= seq!["upgrade"@]);
    assert(header_tokens_of(l3, c)[0] == ascii_lowercase("upgrade"@));
    // The `Upgrade` header is `websocket`.
    lemma_join_push(empty, (c, "upgrade"@), u, None);
    lemma_join_push(l1, (u, "websocket"@), u, None);
    lemma_join_push(l2, (a, answer), u, None);
    assert(eq_ignoring_ascii_case(u, u));
    assert(header_value_of(l3, u) == Some("websocket"@));
    assert(eq_ignoring_ascii_case("websocket"@, "websocket"@));
    // The `Sec-WebSocket-Accept` header carries the answer.
    lemma_join_push(empty, (c, "upgrade"@), a, None);
    lemma_join_push(l1, (u, "websocket"@), a, None);
    lemma_join_push(l2, (a, answer), a, None);
    assert(eq_ignoring_ascii_case(a, a));
    assert(header_value_of(l3, a) == Some(answer));
    // No extension and no subprotocol is announced.
    let e = "Sec-WebSocket-Extensions"@;
    let p = "Sec-WebSocket-Protocol"@;
    lemma_names_differ(c, e);
    lemma_names_differ(u, e);
    lemma_names_differ(a, e);
    lemma_names_differ(c, p);
    lemma_names_differ(u, p);
    lemma_names_differ(a, p);
    lemma_tokens_push(empty, (c, "upgrade"@), e);
    lemma_tokens_push(l1, (u, "websocket"@), e);
    lemma_tokens_push(l2, (a, answer), e);
    lemma_tokens_push(empty, (c, "upgrade"@), p);
    lemma_tokens_push(l1, (u, "websocket"@), p);
    lemma_tokens_push(l2, (a, answer), p);
    assert(header_tokens_of(empty, e) =~= seq![]);
    assert(header_tokens_of(empty, p) =~= seq![]);
    assert(header_tokens_of(l3, e) =~= seq![]);
    assert(header_tokens_of(l3, p) =~= seq![]);
}

/// The server accepts a `GET` request whenever `upgrade` is one of the
/// tokens of its `Connection` header, wherever it stands among them (the
/// other checks passing), answering the key; and it refuses with
/// "upgrade not requested" only a request in which no `Connection` token is
/// `upgrade`.
pub proof fn theorem_server_finds_upgrade_token_anywhere(
    method: Seq<char>,
    headers: Seq<(Seq<char>, Seq<char>)>,
)
    ensures
        ({
            &&& method == "GET"@
            &&& header_tokens_of(headers, "Connection"@).contains("upgrade"@)
            &&& header_value_of(headers, "Upgrade"@) matches Some(v) && eq_ignoring_ascii_case(
                v,
                "websocket"@,
            )
            &&& header_value_of(headers, "Sec-WebSocket-Version"@) == Some("13"@)
            &&& key_check(header_value_of(headers, "Sec-WebSocket-Key"@)) is Ok
        }) ==> server_handshake(method, headers) == Ok::<Seq<char>, ServerFault>(
            key_check(header_value_of(headers, "Sec-WebSocket-Key"@))->Ok_0,
        ),
        server_handshake(method, headers) matches Err(ServerFault::UpgradeNotRequested) ==> !header_tokens_of(
            headers,
            "Connection"@,
        ).contains("upgrade"@),
        server_handshake(method, headers) matches Err(ServerFault::WrongHttpMethod) ==> method
            != "GET"@,
        server_handshake(method, headers) matches Err(ServerFault::NotAWebSocket) ==> !(
        header_value_of(headers, "Upgrade"@) matches Some(v) && eq_ignoring_ascii_case(
            v,
            "websocket"@,
        )),
        server_handshake(method, headers) matches Err(ServerFault::UnsupportedVersion)
            ==> header_value_of(headers, "Sec-WebSocket-Version"@) != Some("13"@),
        server_handshake(method, headers) matches Err(ServerFault::Key(_)) ==> key_check(
            header_value_of(headers, "Sec-WebSocket-Key"@),
        ) is Err,
{
    lemma_handshake_texts();
}

/// The client accepts a `101` response whose `Upgrade` header is
/// `websocket` in any ASCII case, when the `Connection` header has the token
/// `upgrade`, the `Sec-WebSocket-Accept` header answers the client's proper
/// key, and no extension or subprotocol is announced; and it refuses with
/// "not upgraded to a WebSocket" only a response whose `Upgrade` header is
/// missing or differs from `websocket` ignoring ASCII case.
pub proof fn theorem_client_upgrade_ignores_case(
    key: Seq<char>,
    status_code: usize,
    headers: Seq<(Seq<char>, Seq<char>)>,
)
    ensures
        ({
            &&& status_code == 101
            &&& key_check(Some(key)) is Ok
            &&& header_tokens_of(headers, "Connection"@).contains("upgrade"@)
            &&& header_value_of(headers, "Upgrade"@) matches Some(v) && eq_ignoring_ascii_case(
                v,
                "websocket"@,
            )
            &&& header_value_of(headers, "Sec-WebSocket-Accept"@) == Some(
                crate::key::key_answer(key),
            )
            &&& header_tokens_of(headers, "Sec-WebSocket-Extensions"@).len() == 0
            &&& header_tokens_of(headers, "Sec-WebSocket-Protocol"@).len() == 0
        }) ==> client_handshake(key, status_code, headers) == Ok::<(), ClientFault>(()),
        client_handshake(key, status_code, headers) matches Err(
            ClientFault::NotUpgradedToWebSocket,
        ) ==> !(header_value_of(headers, "Upgrade"@) matches Some(v) && eq_ignoring_ascii_case(
            v,
            "websocket"@,
        )),
        client_handshake(key, status_code, headers) matches Err(ClientFault::ProtocolNotSwitched)
            ==> status_code != 101,
        client_handshake(key, status_code, headers) matches Err(ClientFault::ConnectionNotUpgraded)
            ==> !header_tokens_of(headers, "Connection"@).contains("upgrade"@),
        client_handshake(key, status_code, headers) matches Err(ClientFault::InvalidAccept)
            ==> header_value_of(headers, "Sec-WebSocket-Accept"@) != Some(
            crate::key::key_answer(key),
        ),
        client_handshake(key, status_code, headers) matches Err(ClientFault::ExtensionNotRequested)
            ==> header_tokens_of(headers, "Sec-WebSocket-Extensions"@).len() > 0,
        client_handshake(key, status_code, headers) matches Err(
            ClientFault::SubprotocolNotRequested,
        ) ==> header_tokens_of(headers, "Sec-WebSocket-Protocol"@).len() > 0,
{
    lemma_handshake_texts();
}

/// The server accepts the upgrade request of a client whose key is the
/// Base64 encoding of 16 octets, answering that key.
proof fn lemma_server_accepts_client_request(key: Seq<char>, nonce: Seq<u8>)
    requires
        nonce.len() == REQUIRED_WEBSOCKET_KEY_LENGTH,
        key.len() == 24,
        all_ascii(key),
        crate::key::base64_decoded(vstd::utf8::encode_utf8(key)) == Some(nonce),
    ensures
        server_handshake("GET"@, client_request_headers(key)) == Ok::<Seq<char>, ServerFault>(
            crate::key::key_answer(key),
        ),
{
    lemma_handshake_texts();
    let c = "Connection"@;
    let u = "Upgrade"@;
    let v = "Sec-WebSocket-Version"@;
    let k = "Sec-WebSocket-Key"@;
    let empty = Seq::<(Seq<char>, Seq<char>)>::empty();
    let l1 = empty.push((v, "13"@));
    let l2 = l1.push((k, key));
    let l3 = l2.push((u, "websocket"@));
    let l4 = l3.push((c, "upgrade"@));
    lemma_names_differ(v, k);
    lemma_names_differ(v, u);
    lemma_names_differ(k, u);
    lemma_names_differ(c, v);
    lemma_names_differ(c, k);
    lemma_names_differ(c, u);
    lemma_set_new_header(empty, v, "13"@);
    assert(seq![].push((v, "13"@)) == l1);
    lemma_set_new_header(l1, k, key);
    lemma_set_new_header(l2, u, "websocket"@);
    // No `Connection` header before the client adds one.
    lemma_tokens_push(empty, (v, "13"@), c);
    lemma_tokens_push(l1, (k, key), c);
    lemma_tokens_push(l2, (u, "websocket"@), c);
    assert(header_tokens_of(empty, c) =~= seq![]);
    assert(header_tokens_of(l3, c) =~= seq![]);
    assert(header_tokens_of(l3, c).push("upgrade"@) =~= seq!["upgrade"@]);
    lemma_set_new_header(l3, c, "upgrade"@);
    assert(client_request_headers(key) == l4);
    // The `Connection` header holds the single token `upgrade`.
    lemma_tokens_push(l3, (c, "upgrade"@), c);
    assert(eq_ignoring_ascii_case(c, c));
    assert(header_tokens_of(l4, c) =~= seq!["upgrade"@]);
    assert(header_tokens_of(l4, c)[0] == ascii_lowercase("upgrade"@));
    // The `Upgrade` header is `websocket`.
    lemma_join_push(empty, (v, "13"@), u, None);
    lemma_join_push(l1, (k, key), u, None);
    lemma_join_push(l2, (u, "websocket"@), u, None);
    lemma_join_push(l3, (c, "upgrade"@), u, None);
    assert(eq_ignoring_ascii_case(u, u));
    assert(eq_ignoring_ascii_case("websocket"@, "websocket"@));
    assert(header_value_of(l4, u) == Some("websocket"@));
    // The version is 13.
    lemma_join_push(empty, (v, "13"@), v, None);
    lemma_join_push(l1, (k, key), v, None);
    lemma_join_push(l2, (u, "websocket"@), v, None);
    lemma_join_push(l3, (c, "upgrade"@), v, None);
    assert(eq_ignoring_ascii_case(v, v));
    assert(header_value_of(l4, v) == Some("13"@));
    // The key is proper.
    lemma_join_push(empty, (v, "13"@), k, None);
    lemma_join_push(l1, (k, key), k, None);
    lemma_join_push(l2, (u, "websocket"@), k, None);
    lemma_join_push(l3, (c, "upgrade"@), k, None);
    assert(eq_ignoring_ascii_case(k, k));
    assert(header_value_of(l4, k) == Some(key));
    crate::headers::lemma_ascii_utf8_len(key);
}

} // verus!
