//! A verified core for a minimal HTTP/1.1 server with two endpoints: a static
//! page under `GET /` and a JSON calculator under `POST /calc`.
//!
//! The library owns the protocol logic — request framing over a raw byte
//! stream, header parsing, method and request-line parsing, routing, the
//! calculator payload grammar, and response serialization — all stated in
//! contracts and proved. Socket I/O and IEEE-754 arithmetic stay with the
//! embedding program, which drives the [`framer::Framer`] state machine and
//! performs the numeric steps the router asks for.
pub mod bytes;
pub mod calc;
pub mod framer;
pub mod headers;
pub mod lit;
pub mod method;
pub mod reqline;
pub mod response;
pub mod router;
