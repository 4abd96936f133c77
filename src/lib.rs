//! Core of a kiosk display controller: remote UI messages in several wire
//! shapes are normalized into one layout document, and a reconciler keeps the
//! displayed layout equal to the newest valid one or to the last good one.
//!
//! - `json`: the document model and member lookup.
//! - `codec`: JSON text, base64 and UTF-8 decoding and encoding.
//! - `projector`: style documents projected onto one of their screens.
//! - `normalizer`: the ordered rules that turn one message body into a layout.
//! - `scanner`: the rules applied over the frames of a multi-part message.
//! - `state`: the reconciler and session bookkeeping.
//! - `templates`, `events`: built-in screens and local interface events.

pub mod json;
pub mod codec;
pub mod projector;
pub mod normalizer;
pub mod scanner;
pub mod state;
pub mod templates;
pub mod events;
