//! Glue generation for statically defined trace probes.
//!
//! A provider definition file names groups of probes and the types of their
//! arguments. This crate parses such a file, validates it, and renders three
//! artifacts from it: the C prototypes of the probe functions, their C
//! definitions, and the Rust bindings through which a program fires them.
//! A separate decision procedure checks the arguments of a firing site
//! against the declared signature of the probe.
pub mod text;
pub mod types;
pub mod model;
pub mod parser;
pub mod validate;
pub mod symbol;
pub mod generate;
pub mod check;
pub mod pipeline;
pub mod buildgen;
pub mod report;
pub mod printer;
