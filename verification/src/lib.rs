//! Two composable shared-memory coordination primitives, modelled as verified
//! state machines: a counting rendezvous barrier (`wait_group`, `wg`) and a
//! call-deduplication registry (`single::flight`) that runs at most one
//! execution per key and shares its result with every caller of that key.

pub mod error;
pub mod park;
pub mod single;
pub mod wait_group;
pub mod wg;
