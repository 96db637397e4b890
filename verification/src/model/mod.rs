//! The bakefile model: what a `bakefile.yaml` declares.
pub mod bake_file;
pub mod command;
pub mod dependency;
pub mod end_handler;
pub mod function_call;
pub mod param;
pub mod param_validator;
pub mod platform_specific;
pub mod plugin;
pub mod task;
pub mod yaml;
