//! Shrinks a structured document (a PDF) by recompressing the raster images
//! embedded in its object graph: locate image streams, rebuild a canonical
//! pixel buffer from their encoded payloads, downsize and re-encode each one
//! under a size budget, patch the owning stream in place, then prune
//! unreachable objects and recompress the remaining streams.

pub mod color;
pub mod config;
pub mod engine;
pub mod model;
pub mod pdf;
pub mod raster;
pub mod resize;
pub mod service;
