//! The rules of a reverse proxy in front of a generative-AI API, with
//! proofs.
//!
//! The proxy itself, with its sockets, locks and tasks, lives outside this
//! library. What lives here is every decision it takes: whom a request is
//! attributed to and whether it may go on ([`auth`]), which paths of the
//! administration surface need a session ([`web_auth`]), in which order the
//! upstream endpoints are tried and what follows from each answer
//! ([`upstream`]), and what is logged and metered of a response
//! ([`monitor`]). Each function states in its contract what it returns, over
//! texts as sequences of characters ([`text`]) and documents as plain data
//! ([`json`]).

pub mod api_keys;
pub mod auth;
pub mod json;
pub mod monitor;
pub mod text;
pub mod upstream;
pub mod web_auth;
