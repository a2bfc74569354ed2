//! The decision making of a rebuilder daemon that cross-checks its build results with
//! peer rebuilders, and of the tool that feeds it FreeBSD packages.

use vstd::prelude::*;

pub mod binary_package;
pub mod freebsd;
pub mod http;
pub mod laws;
pub mod models;
pub mod packages;
pub mod peers;
pub mod queue;
pub mod status;
pub mod text;
pub mod time;

verus! {

/// The views of each value of a list.
pub open spec fn views<T: View>(list: Seq<T>) -> Seq<T::V> {
    list.map_values(|x: T| x@)
}

} // verus!
