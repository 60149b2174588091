//! Functionality of particular platforms.
use crate::io::Async;
use vstd::prelude::*;

pub mod kqueue;

verus! {

/// Marks the adapters whose functionality platforms extend.
pub trait AsyncSealed {

}

impl<T> AsyncSealed for Async<T> {

}

} // verus!
