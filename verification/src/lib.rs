//! Command routing and dispatch core for a chat-bot framework.
//!
//! The crate compiles command patterns from a prefix set and an alias set,
//! matches incoming message text against them, extracts typed arguments
//! with a classified failure taxonomy, and models the routing decisions
//! that fan a message out to independent handler chains.

pub mod commands;
pub mod errors;
pub mod extractors;
pub mod filters;
pub mod router;
pub mod swarm;
pub mod tg_html;
pub mod text;

pub use errors::ArgumentError;
pub use tg_html::TgHtml;
pub use tg_html::tg_html;
