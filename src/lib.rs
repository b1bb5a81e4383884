//! Core logic of an internet radio server: chunk buffering, configuration rules, schedule
//! decisions, playlist sequencing, playlist files, library scan planning and the HTTP
//! surface. Everything here is verified; I/O, processes and the network live with the caller.
pub mod buffer;
pub mod config;
pub mod liveset;
pub mod m3u;
pub mod metadata;
pub mod playlist;
pub mod scanner;
pub mod schedule;
pub mod server;
pub mod text;
pub mod transcoder;
