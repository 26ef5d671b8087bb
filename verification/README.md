# websockets

An implementation of [RFC 6455](https://tools.ietf.org/html/rfc6455), "The
WebSocket Protocol", in either the client or the server role, whose protocol
engine is verified with Verus.

- `src/` is the verified engine: the opening handshake (`handshake`, `key`,
  `headers`), the frame format (`frame`, `vec_ext`), reading and reassembling
  received frames (`reader`, `receiver`), what to do with each of them
  (`receiving`), deciding and building the frames to
  send (`socket`, `sender`, `close`), and the queue of received messages
  (`queue`).  Each public function states in its contract exactly what it
  returns; public proof functions state the laws that span functions, such as
  a message sent by one end being received whole by the other.
- `app/` runs the engine over an asynchronous byte connection: a worker
  thread writes the frames the engine builds, reads octets for the engine's
  frame reader, and hands received messages to the user as a `Stream`, while
  messages to send go in through a `Sink`.
- `tests/` exercises the engine on concrete inputs.
