//! Host monitoring agent library: snapshot parsing, controller protocol
//! decisions and terminal bridge decisions.

pub mod bridge;
pub mod controller;
pub mod cpu;
pub mod diag;
pub mod models;
pub mod procs;
pub mod ram;
pub mod status;
pub mod text;
