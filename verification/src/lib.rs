//! From a declarative description of a firewall to the ordered list of
//! `iptables` command lines that sets it up.
//!
//! A document is a tree ([`tree::Node`]). Its section `filter` gives default
//! policies ([`filter`]); every other section holds lists of raw lines
//! ([`raw`]), of match rules ([`matches`]) and of port rules ([`ports`]).
//! [`document::compose`] turns a document into its commands and the first
//! fault found, [`loader::read_yaml`] does the same from YAML text. Nothing
//! here runs a command.
//!
//! Every function is verified against the meaning given to a document by the
//! `spec` functions on [`tree::Tree`]; [`laws`] proves what follows
//! from that meaning for all documents.

pub mod command;
pub mod document;
pub mod emission;
pub mod error;
pub mod fields;
pub mod filter;
pub mod laws;
pub mod listing;
pub mod loader;
pub mod matches;
pub mod ports;
pub mod raw;
pub mod text;
pub mod tree;
pub mod vocabulary;
