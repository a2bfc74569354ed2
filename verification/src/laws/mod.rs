//! What the operations of this crate are for, stated of all inputs: each law relates what goes
//! in to what comes out, in terms of characters, fields and points in time.

pub mod api;
pub mod crosscheck;
pub mod freebsd;
pub mod jobs;
pub mod local;
pub mod lookup;
pub mod registry;
pub mod status;
pub mod tables;
pub mod text;
pub mod views;
