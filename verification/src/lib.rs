//! Core of a CO2 monitor: one 16-bit reading per request, taken from a
//! Senseair-style sensor on a serial line or from an HTTP endpoint that
//! answers in JSON, then handed to the hook programs of a directory.
//!
//! The library performs no input or output. It decides: which bytes go to
//! the port, how a response frame or a response body becomes a reading, in
//! which order the hooks run and what each is given. A driver performs one
//! [`session::Action`] at a time and hands back the [`session::Event`] that
//! came of it.

pub mod codec;
pub mod config;
pub mod decimal;
pub mod error;
pub mod extract;
pub mod header;
pub mod hooks;
pub mod json;
pub mod ports;
pub mod run;
pub mod session;
pub mod text;
