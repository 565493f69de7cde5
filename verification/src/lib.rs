//! Platform-independent core of a screenshot tool: frames and geometry,
//! settings, encoding, capture compositing, and editor geometry.
pub mod frame;
pub mod text;
pub mod config;
pub mod encode;
pub mod capture;
pub mod clipboard;
pub mod print;
pub mod annotation;
pub mod raster;
pub mod pixelate;
pub mod document;
pub mod publish;
pub mod overlay;
pub mod workflow;
pub mod settings;
pub mod diagnostics;
