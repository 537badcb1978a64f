//! Message transport and command dispatch core of a FIDO2/CTAP2
//! authenticator: fixed-size link-layer frames are assembled into logical
//! messages, and complete messages are routed to command handlers that
//! produce reply messages.

pub mod cbor;
pub mod codec;
pub mod dispatch;
pub mod hid;
pub mod message;
pub mod receive;
