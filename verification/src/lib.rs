pub mod agent;
pub mod analysis;
pub mod cli;
pub mod collectors;
pub mod config;
pub mod domain;
pub mod platform;
pub mod presentation;
pub mod procfs;
pub mod storage;
pub mod text;
