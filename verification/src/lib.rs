//! Translation of parsed native header declarations into generated binding
//! source: classification into statements, member resolution, rendering and
//! the module tree that the emitted files mirror.

pub mod availability;
pub mod classify;
pub mod config;
pub mod emit;
pub mod entity;
pub mod error;
pub mod expr;
pub mod features;
pub mod items;
pub mod merge;
pub mod method;
pub mod module;
pub mod names;
pub mod output;
pub mod property;
pub mod render;
pub mod resolve;
pub mod rust_type;
pub mod selector_set;
pub mod stmt;
pub mod text;
pub mod unexposed_macro;
pub mod uuid;
