//! What the operations are for, stated apart from how they are carried out.
//!
//! Each law here relates the inputs of an operation to its result, or two calls
//! to each other, over all inputs.

pub mod caches;
pub mod channels;
pub mod codes;
pub mod files;
pub mod labels;
pub mod ladder;
pub mod names;
pub mod pulls;
pub mod queries;
pub mod rendered;
pub mod services;
pub mod sources;
pub mod statuses;
pub mod texts;
pub mod times;
