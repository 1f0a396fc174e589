//! A diagnostic-normalization pipeline for a static-analysis tool run over a
//! C/C++ source tree: scope selection, analyzer command construction, report
//! parsing, issue classification, and result emission.

pub mod artifact;
pub mod classify;
pub mod config;
pub mod cppcheck;
pub mod emit;
pub mod invoke;
pub mod issue;
pub mod logfmt;
pub mod model;
pub mod pipeline;
pub mod text;
