//! The endpoint of a coordinated shared drive.
//!
//! An endpoint serves files of a share to the agents of one person, and keeps
//! them and everybody else's agents from overwriting each other. What it decides
//! is here: how paths are spelled and confined, what a read may hand over, in
//! which order an operation on a file asks for what it needs, and what every
//! answer makes of it. Doing what is asked for, on the share and with the
//! coordinator, is up to the program that drives the library.

pub mod backend;
pub mod base64text;
pub mod canon;
pub mod coord_client;
pub mod create;
pub mod delete_cas;
pub mod diag;
pub mod envelope;
pub mod hostconfig;
pub mod identity;
pub mod lease_manager;
pub mod mount;
pub mod move_cas;
pub mod moverecover;
pub mod nearname;
pub mod ops;
pub mod pathgrammar;
pub mod pathlock;
pub mod proto;
pub mod read;
pub mod restore_in_place;
pub mod selftest;
pub mod server;
pub mod settings;
pub mod sniff;
pub mod startup;
pub mod text;
pub mod texts;
pub mod traceprobe;
pub mod write;
pub mod write_cas;
