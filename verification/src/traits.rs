//! The traits that the wire codec is built from.

pub mod serializable;
