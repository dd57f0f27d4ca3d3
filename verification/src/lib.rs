//! Builders for MongoDB projection documents whose field paths are checked
//! against the fields of the target type.

pub mod field_witnesses;
pub mod path;
pub mod entries;
pub mod bson_specs;
pub mod projection;
