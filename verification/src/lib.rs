//! Markdown and drag-and-drop files from rich-text content.
//!
//! A card's content is either a structured document, written as a JSON
//! array of nodes, or HTML text. [`artifact::convert`] tells the two apart
//! by shape, renders the first with [`render::render`] and strips the second
//! with [`strip::strip`]; [`artifact`] names and fills the files that stand
//! for a card; [`sanitize::sanitize`] makes the file names. [`portal`] and
//! [`server`] take the decisions of the desktop shell around them.
//!
//! Nothing here touches the disk, the network or a window: every function
//! goes from plain values to plain values, and says in its contract exactly
//! which.

pub mod artifact;
pub mod document;
pub mod json;
pub mod portal;
pub mod render;
pub mod sanitize;
pub mod server;
pub mod strip;
pub mod structured;
pub mod text;
