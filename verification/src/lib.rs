//! A minimal paste-sharing service, as a verified library.
//!
//! A client streams raw bytes to the ingest listener; the bytes are framed into
//! one paste, stored under a random sixteen-character identifier, and answered
//! with a retrieval URL. An HTTP request for `/<identifier>` returns the stored
//! bytes. This crate holds the rules of that exchange: how a paste is framed off
//! the stream, how identifiers look, how a requested identifier is cleaned before
//! it names a file, how the outcome of reading that file becomes a response, and
//! how the settings are read that the listeners start from.
//! Sockets and files belong to the program around the library.

pub mod address;
pub mod config;
pub mod identifier;
pub mod ingest;
pub mod paste;
pub mod retrieval;
