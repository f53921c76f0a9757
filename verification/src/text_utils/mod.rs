//! Text positions, encodings and range helpers.

pub mod conversion;
pub mod encoding;
pub mod lines;
pub mod lines_lemmas;
pub mod position;
pub mod range_ext;
pub mod rope;
pub mod sorting;
pub mod strings;
pub mod text_model;

pub use encoding::Encoding;
pub use position::Position;
pub use range_ext::RangeExt;
