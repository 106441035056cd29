//! The admission, protection and lifecycle layer in front of an external
//! media extractor: who may start a download, how often, how a job's
//! workspace is handled, and what is remembered of the outcome.
use vstd::prelude::*;

pub mod antibot;
pub mod clock;
pub mod config;
pub mod errors;
pub mod extractor;
pub mod formats;
pub mod gate;
pub mod history;
pub mod identity;
pub mod jobs;
pub mod ids;
pub mod media;
pub mod model;
pub mod rate_limit;
pub mod strmap;
pub mod text;
pub mod urls;
pub mod workspace;
