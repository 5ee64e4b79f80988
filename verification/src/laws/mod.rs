//! What holds of the library as a whole: of one operation on every input, and of
//! several operations one after the other.

pub mod bounds;
pub mod calls;
pub mod contacts;
pub mod gateway;
pub mod hosting;
pub mod joining;
pub mod keys;
pub mod messages;
pub mod presence;
pub mod relays;
pub mod screens;
pub mod texts;
pub mod voice;
pub mod windows;
