//! The attribute and derive macros, as functions from source text to source
//! text.

pub mod attr_laws;
pub mod attrs;
pub mod case;
pub mod cheap_clone;
pub mod command_laws;
pub mod commands;
pub mod derive_laws;
pub mod event;
pub mod field_laws;
pub mod fields;
pub mod grammar_laws;
pub mod handler_laws;
pub mod handlers;
pub mod methods;
pub mod service;
pub mod service_laws;
pub mod spawn;
pub mod spawn_laws;
pub mod syntax;
