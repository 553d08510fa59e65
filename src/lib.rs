//! A streaming, context-sensitive tokenizer for the Amark markup language.
//!
//! The reader does not build a tree: it turns a byte source into a stream of tokens
//! (structural delimiters, item names, text lines and escape markers). Every step of
//! the engine is proved to follow the state machine written down in [`semantics`].
mod buf;
mod context;
mod display;
mod error;
pub mod laws;
mod reader;
pub mod semantics;
mod scan;
mod source;
mod token;

pub use buf::Buf;
pub use context::{Context, ContextStack};
pub use display::ByteDisp;
pub use error::AmarkError;
pub use reader::AmarkReader;
pub use source::ByteSource;
pub use token::AmarkToken;
