//! Protocol session engine of a mail store: address parsing, the LMTP
//! delivery state machine and the IMAP mailbox session state machine.
pub mod text;
pub mod email;
pub mod address;

pub use email::Email;
pub mod server;
pub mod lmtp;
pub mod delivery;
pub mod imap;
