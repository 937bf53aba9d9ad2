//! A small record-management library: friend records (a name/email pair)
//! kept in a store that assigns each record a unique id, together with the
//! migration bookkeeping and the request-handling rules built on top of it.

pub mod handlers;
pub mod migrate;
pub mod paths;
pub mod models;
pub mod store;
