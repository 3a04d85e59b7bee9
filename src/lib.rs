//! Safe building blocks for a text label of a native GUI toolkit.
//!
//! The toolkit takes and hands back text as null-terminated UTF-8 byte
//! buffers, and takes a label's alignment as a small integer constant.
//! This crate holds the verified conversions on both sides of that boundary.
pub mod alignment;
pub mod text;

pub use alignment::TextAlignment;
pub use text::{text_from_c_bytes, to_c_text, NulByte};
