//! The packages of FreeBSD mirrors.

pub mod packagesite;
pub mod pkg;
pub mod commits;
pub mod sync;
