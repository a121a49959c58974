//! Parsing of starting tags and their attributes.
pub mod attributes;
pub mod html_utils;
pub mod structs;
pub mod tag;
