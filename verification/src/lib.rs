//! A server-side library for the IBM 3270 terminal data stream over a
//! TN3270 (telnet-framed) transport: a CP037 character codec, the 3270
//! wire primitives and order codec, a telnet option-negotiation state
//! machine with End-of-Record framing, and a screen presenter.

pub mod encoding;
pub mod stream;
pub mod telnet;
pub mod session;
pub mod screen;
