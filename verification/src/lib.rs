//! A remote control for the Tunnelblick VPN manager: commands are
//! rendered as inter-application scripting text for an OS scripting
//! interpreter to run against the application, and the textual status
//! reply is parsed into typed rows and re-emitted as aligned,
//! tab-delimited output.
//!
//! Spawning the interpreter and all other I/O stay outside this crate;
//! everything here is a function from text to text with a proved
//! contract.

pub mod client;
pub mod numbers;
pub mod script;
pub mod status;
pub mod text;

pub use client::{complete, version, Client};
pub use script::{cmd, Cmd, Command};
pub use status::{parse_and_format, parse_status, Configuration, StatusError};
