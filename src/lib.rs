//! Persistence layer for a small record-keeping service: a region manager over
//! one growable memory, a persisted identifier counter, and ordered maps of
//! length-prefixed records, with create/read/update/delete on top.

pub mod codec;
pub mod error;
pub mod ids;
pub mod layout;
pub mod record;
pub mod repository;
pub mod storage;
pub mod stores;
