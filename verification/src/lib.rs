//! The decisions of a live preview for Markdown files.
//!
//! A preview watches one file, has its content rendered by an external
//! service, and serves the result as a page and as a stream of updates. This
//! crate holds the rules of that pipeline and nothing that touches a file or
//! a socket: the caller reads, fetches and sends, and asks these modules what
//! to do with what came back.
//!
//! - [`watch`]: which file-system events matter, and which reads of the file
//!   are a change of state.
//! - [`render`]: the cache of rendered artifacts and the reading of the
//!   external renderer's answers.
//! - [`icons`]: finding the icons that markup asks for and splicing the
//!   fetched artwork into it.
//! - [`server`]: the answers to one-shot requests and the steps of a
//!   streaming connection.
//! - [`sse`]: the framing of server-sent events.
//! - [`templater`]: the page around rendered markup.
//! - [`error`], [`store`], [`text`]: error chains as plain text, a keyed
//!   store of texts, and helpers on characters.

pub mod error;
pub mod icons;
pub mod render;
pub mod server;
pub mod sse;
pub mod store;
pub mod templater;
pub mod text;
pub mod watch;
