//! Run-time casting from a type-erased value to any capability interface that
//! its concrete type was declared to implement, through a registry keyed by
//! type identity; with the small traits and the identifier grammar that IR
//! entities share.

pub mod common_traits;
pub mod parsable;
pub mod trait_cast;
