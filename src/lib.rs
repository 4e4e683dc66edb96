//! Materializes a project directory into a managed realm under a fixed
//! container root, and drives the load, show, unload and run operations
//! against that mirror.
pub mod text;
pub mod error;
pub mod path_guard;
pub mod working_dir;
pub mod materializer;
pub mod operation_info;
pub mod args;
pub mod config;
pub mod lifecycle;
pub mod options;
pub mod workspace;
pub mod dir;
pub mod init;
pub mod process_builder;
pub mod dotconfig;
