//! A shelf-packed texture atlas with a lookup index.

pub mod cache;
pub mod entry;
pub mod index;
pub mod key;
pub mod model;
pub mod rows;
pub mod theorems;
