//! Orchestration rules for services that run as containers: start ordering,
//! volume resolution, the stop protocol and status parsing.

pub mod assemble;
pub mod config;
pub mod container;
pub mod error;
pub mod name_map;
pub mod order;
pub mod report;
pub mod runtime;
pub mod status;
pub mod stop;
pub mod text;
pub mod volume;
