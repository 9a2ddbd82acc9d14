//! Verified core of a small image-hosting web service: classification of
//! uploaded input, allocation of image indices, naming of stored files,
//! decisions taken on downloaded responses, and rendering of the HTML page.

pub mod text;
pub mod errors;
pub mod codecs;
pub mod image_api;
pub mod image_app;
