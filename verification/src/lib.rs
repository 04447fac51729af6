//! Embeds a web-rendering surface in a host window and bridges the input
//! messages of the embedded content into the host's native input events.
//!
//! The crate holds the rules of that bridge: how a webview's policies
//! resolve, what bootstrap script a webview is started with, how a message
//! from the content is framed and translated, and how the registry of live
//! webviews follows the host's component lifecycle. Driving the host
//! runtime and the browser engine is left to the caller.

pub mod config;
pub mod events;
pub mod guard;
pub mod queue;
pub mod script;
pub mod webview;
pub mod wire;
