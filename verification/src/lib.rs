//! A strided data-view and pixel-style rendering engine for inspecting raw
//! byte buffers visually.
//!
//! The crate maps a logical, bounds-checked index space onto a byte buffer
//! (`view`), decodes multi-byte values at arbitrary endianness (`datatype`),
//! and converts view positions into RGBA colors under a family of policies
//! (`style`).  A render driver (`render`) fills a whole frame, and `preview`
//! produces a textual hex/ASCII dump of a small window.

pub mod datatype;
pub mod options;
pub mod preview;
pub mod render;
pub mod settings;
pub mod style;
pub mod view;
