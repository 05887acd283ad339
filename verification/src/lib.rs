//! Dynamic DNS service: the request logic of the web endpoints, the
//! DynDNS-style update protocol and the authoritative DNS answers.
pub mod auth;
pub mod credentials;
pub mod models;
pub mod text;

pub mod web;
pub mod update;
pub mod dns;
pub mod settings;
