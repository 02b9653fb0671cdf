//! The format-aware embedding/extraction engines.

pub mod jpeg;
pub mod pdf;
pub mod png;

pub use jpeg::JpegEngine;
pub use pdf::PdfEngine;
pub use png::PngEngine;
