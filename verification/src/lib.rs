//! The logic of a software center for Mirror OS.

pub mod app_id;
pub mod app_info;
pub mod backend;
pub mod command;
pub mod json;
pub mod nav;
pub mod operation;
pub mod priority;
pub mod search_filter;
mod shared;
pub mod text;
