//! Speech recognition: what steers the decoder and judges its text.

pub mod cache;
pub mod decode;
pub mod frontend;
pub mod plan;
pub mod postprocess;
pub mod quality;
pub mod session;
pub mod stub;
pub mod vocabulary;
