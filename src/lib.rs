//! A declarative build orchestrator for C, C++ and assembly projects: it
//! discovers sources, plans compiler and linker invocations, and decides,
//! step by step, what a stage of the pipeline does next.
pub mod paths;
pub mod config;
pub mod error;
pub mod files;
pub mod compilation;
pub mod stage;
pub mod cli;
pub mod commands;
