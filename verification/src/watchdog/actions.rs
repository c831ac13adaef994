//! What the three drivers decide before and after they reach outside.

pub mod email;
pub mod script;
pub mod webhook;
