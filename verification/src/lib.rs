//! Batch assembly of paired sequencing reads: sample discovery, manifest
//! parsing and the supervision of one assembler run per sample.

pub mod boundary;
pub mod cleaner;
pub mod finder;
pub mod input;
pub mod io;
pub mod parser;
pub mod path;
pub mod runner;
pub mod supervisor;
pub mod text;
pub mod utils;
