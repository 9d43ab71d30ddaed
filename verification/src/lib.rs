//! A stylized commentary stream over compiler diagnostics: classify each
//! stderr line, translate error lines through an ordered pattern dictionary,
//! and decorate them with a randomly chosen suffix.

pub mod classifier;
pub mod dictionary;
pub mod pipeline;
pub mod suffix;
pub mod text;
