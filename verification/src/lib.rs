//! The logic behind the scripting bridge of a browser-automation daemon:
//! error texts, the command verbs, the program wrapping, the bridge's JSON
//! commands, the evaluation of programs on the JavaScript engine, and the registry of persistent named
//! script contexts.

pub mod text;
pub mod messages;
pub mod contexts;
pub mod engine;
pub mod bridge;
pub mod run;

pub use crate::contexts::{Admission, JsContexts};
pub use crate::messages::{alias_action, top_level_error};
