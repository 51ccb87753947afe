//! The mail gateway: it takes requests out of mail, asks the validator's core
//! and the ledger service, and mails the answers back.
pub mod carrier;
pub mod cbor;
pub mod cbor_map;
pub mod cli;
pub mod config;
pub mod core_ipc;
pub mod decrypt;
pub mod email;
pub mod error;
pub mod error_response;
pub mod fanout;
pub mod gateway;
pub mod handlers;
pub mod health;
pub mod lambda_client;
pub mod limiter;
pub mod mail_limits;
pub mod maildir;
pub mod malloc_trim;
pub mod payload;
pub mod pgp;
pub mod requests;
pub mod response;
pub mod skip_list;
pub mod stats;
pub mod uncle_sink;
pub mod witness;
