//! Editor-integrated coverage server: watches save events, drives an external
//! coverage run, loads the resulting line-coverage report, filters it through a
//! configurable ignore ruleset, and turns uncovered lines into diagnostics.

pub mod bytes;
pub mod cli;
pub mod coordinator;
pub mod coverage;
pub mod events;
pub mod ignore;
pub mod ingest;
pub mod line_slice;
pub mod mode;
pub mod report;
pub mod runner;
