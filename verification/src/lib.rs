//! The logic of a desktop chat client: identities, encrypted messages over
//! relays, the gateway session, voice, screen sharing and presence.
//!
//! Everything in this crate is plain computation with a proved contract. What
//! touches the network, the disk, a sound card or a window lives in the
//! program around it.

pub mod callkey;
pub mod crypto;
pub mod features;
pub mod gateway;
pub mod host;
pub mod identity;
pub mod json;
pub mod keyvault;
pub mod laws;
pub mod list;
pub mod logging;
pub mod mediakey;
pub mod net;
pub mod nostr;
pub mod portmap;
pub mod presence;
pub mod profile;
pub mod protocol;
pub mod quic;
pub mod rawmic;
pub mod session;
pub mod state;
pub mod table;
pub mod text;
pub mod voice;
