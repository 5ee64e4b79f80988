//! The logic behind the views: what they say, and what their controls do.

pub mod roles;
pub mod screenshare;
pub mod servers;
pub mod settings;
pub mod sounds;
pub mod topology;
pub mod wallet;
pub mod workspace;
