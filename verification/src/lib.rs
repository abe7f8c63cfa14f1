//! A secure datagram tunneling core: authenticated, replay-protected frames
//! over an untrusted transport, together with the small supporting services
//! that live beside it (symbol resolution, key/value keychain, task and
//! document stores, agent supervision state).

pub mod aead;
pub mod agentmgr;
pub mod agents;
pub mod bridge;
pub mod bundle;
pub mod docstore;
pub mod error;
pub mod frame;
pub mod gateway;
pub mod kdf;
pub mod keychain;
pub mod memory;
pub mod nonce;
pub mod rekey;
pub mod sa;
pub mod secure;
pub mod settings;
pub mod session;
pub mod snapshots;
pub mod strutil;
pub mod tasks;
pub mod vfs;
pub mod window;

pub use error::LadlsError;
pub use frame::LAdlsHeader;
pub use sa::SecurityAssociation;
pub use session::Session;
