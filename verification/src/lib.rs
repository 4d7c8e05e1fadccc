//! Streaming parser support for the NationStates daily data dumps.

pub mod text;
pub mod lists;
pub mod canon;
pub mod html;
pub mod models;
pub mod date;
pub mod dump;
pub mod element;
