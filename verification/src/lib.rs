//! Verified core of a small system-status server: the parsers for the
//! kernel's text files, the choices between data sources, and the
//! command-line grammar.

pub mod battery;
pub mod cli;
pub mod config;
pub mod cpuinfo;
pub mod meminfo;
pub mod proc_stat;
pub mod system;
pub mod text;
pub mod thermal;
