//! What the store guarantees, stated over the model of the backend and proved.

pub mod concurrency;
pub mod existence;
pub mod read;
pub mod round_trip;
pub mod upload;
