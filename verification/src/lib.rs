//! Command line arguments of the One ROM tool.
pub mod catalog;
pub mod catalog_laws;
pub mod config_laws;
pub mod error;
pub mod firmware;
pub mod json;
pub mod manifest;
pub mod number;
pub mod order;
pub mod plugin;
pub mod plugin_config;
pub mod plugin_form_laws;
pub mod plugin_laws;
pub mod slot;
pub mod slot_config;
pub mod slot_form_laws;
pub mod slot_laws;
pub mod slot_value;
pub mod text;
pub mod text_laws;
pub mod value_laws;
