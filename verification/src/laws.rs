//! What the library's operations do, said of their calls.
//!
//! Each law here speaks of what a call was given and what it gave: a result satisfies something of its
//! inputs, or the results of several calls are related. The statements use the texts, numbers and
//! outside functions themselves.
pub mod errors;
pub mod fields;
pub mod files;
pub mod keys;
pub mod opening;
pub mod profiles;
pub mod sealing;
pub mod store;
