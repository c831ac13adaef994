//! The decisions behind the HTTP surface.

pub mod checkin;
pub mod switches;
