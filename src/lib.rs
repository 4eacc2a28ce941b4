//! Decoding of hash-addressed binary records and of the artifacts derived from them.
//!
//! A [`store::TagStore`] holds the bytes of records by hash. The [`decoder`] turns the
//! bytes at an address into a [`value::Value`] according to a [`schema::RecordSchema`],
//! following references through the store. On top of it, [`text`] assembles localized
//! strings and [`pixel_format`] gives the sizes and layouts of texture data.
pub mod wire;
pub mod address;
pub mod store;
pub mod schema;
pub mod value;
pub mod decoder;
pub mod records;
pub mod pixel_format;
pub mod texture;
pub mod text;
pub mod search;
pub mod icon;
pub mod indexable;
