//! A paginated index over auction cache records, kept in descending
//! timestamp order, with the checks that guard a positioned insert.
pub mod address;
pub mod error;
pub mod page;
pub mod codec;
pub mod derivation;
pub mod processor;
