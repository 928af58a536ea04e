//! Disc and image formats.
pub mod dvd;
pub mod image_formats;
