//! Toggling a WireGuard tunnel for a status bar.
//!
//! The library reads a tunnel configuration from INI text into validated
//! records ([`config`]), decides step by step what a toggle of the tunnel
//! does ([`toggle`]), says what is shown to the status bar and what is
//! remembered between runs ([`status`]), and decides how the status bar is
//! signalled ([`utils`]). It touches no file, no interface and no process:
//! whoever uses it carries out what it asks for and tells it what happened.
//!
//! Every function is verified against its contract. What is taken on trust
//! are the INI reader, the base64 decoder, the JSON writer and a few
//! functions of the standard library; each is named where it is used.

pub mod address;
pub mod cli;
pub mod config;
pub mod error;
pub mod ini_file;
pub mod status;
pub mod text;
pub mod toggle;
pub mod utils;
