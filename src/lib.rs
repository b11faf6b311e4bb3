//! Analysis and caching core of a photo browser: palette and brightness
//! metadata, focus heatmaps, geometric transforms, content-addressed
//! artifact names and OCR text assembly.

pub mod raster;
pub mod heatmap;
pub mod hex;
pub mod error;
pub mod metadata;
pub mod transform;
pub mod cache;
pub mod listing;
pub mod ocr;
