//! Renders exported script-step parameter definitions into short
//! human-readable description strings.
//!
//! The core is the streaming decode-and-render logic for two parameter
//! variants, a dialog button and a dialog input field, together with the
//! shared depth-tracked sub-tree walk that both decoders rely on. Decoding
//! is tolerant: malformed or truncated markup degrades to absent or default
//! fields, never to a failure.

pub mod button;
pub mod calculation;
pub mod cursor;
pub mod dialog_field;
pub mod events;
pub mod target;
pub mod walk;
pub mod xml_source;
