//! Core of a small invoicing service: accounts with credentials, signed
//! session tokens, per-account invoice numbering, and fixed-point invoice
//! arithmetic. The HTTP layer around it lives elsewhere and only passes
//! validated plain values in and out.

pub mod auth;
pub mod client;
pub mod errors;
pub mod ids;
pub mod invoice;
pub mod money;
pub mod numfmt;
pub mod password;
pub mod service;
pub mod settings;
pub mod store;
pub mod token;
pub mod user;
