//! Extraction of the body text and media links of a rendered social-media
//! post page.
pub mod chars;
pub mod colon;
pub mod text;
pub mod media;
pub mod document;
pub mod pipeline;
