//! The tunnel: one port that takes requests in for the validator's inbox, and lets browsers
//! through to a fixed set of nodes. It reads no request and holds no key.
pub mod config;
pub mod intake;
pub mod maildir;
pub mod route;
