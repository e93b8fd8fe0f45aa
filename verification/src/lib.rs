//! The decision logic of the ChmlFrp toolbox daemon.
//!
//! Everything here works on plain values: strings, integers, and the crate's own types.
//! Sockets, files, child processes, clocks and locks belong to the program around it.
#![allow(unused_imports)]

pub mod commands;
pub mod config;
pub mod db;
pub mod digest;
pub mod frpc;
pub mod http;
pub mod ident;
pub mod json;
pub mod logs;
pub mod relay;
pub mod telemetry;
pub mod text;
