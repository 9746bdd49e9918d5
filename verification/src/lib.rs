//! A key -> URL mapping service core: the mapping store's semantics, the
//! command protocol of the database access actor, and the actor's sequential
//! command processing, all with verified contracts. HTTP plumbing and the
//! real database connection live outside this crate.

pub mod auth;
pub mod config;
pub mod db;
pub mod laws;
pub mod manager;
