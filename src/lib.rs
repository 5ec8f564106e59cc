//! A registry of certification records, each owned by one account, with
//! creation, update and removal gated by ownership.
use vstd::prelude::*;

pub mod id;
pub mod registry;

verus! {

} // verus!
