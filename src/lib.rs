//! Syntax-highlighted rendering of x86 machine code.
//!
//! Bytes are decoded and formatted one instruction at a time by `iced_x86`;
//! each text fragment is tagged with a syntax category, and each category is
//! mapped to a display color.

pub mod category;
pub mod engine;
pub mod sink;
pub mod render;
pub mod settings;
