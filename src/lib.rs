//! A capacity-bounded key/value registry of providers and oracles whose
//! records live at deterministically derived addresses.
pub mod account;
pub mod address;
pub mod encoding;
pub mod oracle;
pub mod provider;

pub use account::Account;
pub use address::Address;
