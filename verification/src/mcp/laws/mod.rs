//! What the bridge promises: how the results of its functions relate to what they
//! were given, and to each other.

pub mod answering;
pub mod cutting;
pub mod reading;
pub mod serving;
