//! Resolution engine of a configuration-driven batch image pipeline.
//!
//! A configuration names parameterised image operations and sequences that
//! compose them. This crate holds the part that decides what runs: how a
//! parameter resolves to a value, how an identifier is looked up, how a
//! sequence unfolds into a flat list of operation identifiers, what is done
//! to one image step by step, and how the outcomes of the single images add
//! up to the outcome of a run. It also takes images apart into their
//! channels and puts them together again. The algorithms that change
//! pixels, the files and the terminal are left to the caller.

pub mod error;
pub mod config;
pub mod processor;
