//! Columns of strings and byte strings, each row a fixed-size view of its bytes.

pub mod array;
pub mod view;
