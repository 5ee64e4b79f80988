//! Nostr, as this client speaks it: events, the encryption of their content,
//! the wrapping that hides their sender, and what the relays are told.

pub mod event;
pub mod metadata;
pub mod nip02;
pub mod nip17;
pub mod nip44;
pub mod nip59;
pub mod relay;
pub mod service;
pub mod xp;
