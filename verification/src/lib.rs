//! A runner of command aliases, as far as it decides anything.
//!
//! A configuration is a tree of named commands. A path of tokens such as
//! `s c1` is walked through it to a command line for a shell
//! ([`resolver::resolve`]) or to a listing of what stands there
//! ([`resolver::resolve_help`]); [`command_parser`] does the same from the
//! configuration's text. Around that stand the taking apart of a command line
//! ([`arguments`]), the usage block ([`usage`]) and the terms on which a shell
//! is run ([`shell`]). Reading files and running processes is left to the
//! program that uses the library.

pub mod arguments;
pub mod command_parser;
pub mod config;
pub mod error;
pub mod guarantees;
pub mod loader;
pub mod resolver;
pub mod shell;
pub mod usage;
