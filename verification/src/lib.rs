//! A fixed-size table that remembers, per hash bucket, the minimum value
//! ever assigned to a key of that bucket.

pub mod laws;
pub mod model;
pub mod order;
pub mod table;

pub use table::MinMap;
