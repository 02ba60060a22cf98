//! Reading a capture stream: connection state, reconnecting, and the bounded
//! buffer of messages for display.
pub mod laws;
pub mod source;
