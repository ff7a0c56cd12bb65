//! Conversion of quiz exports (a tree of folders holding questions in a legacy
//! schema) into a flat, uniform collection model.

pub mod conversion;
pub mod convert;
pub mod encoding;
pub mod error;
pub mod model;
pub mod unipol;
