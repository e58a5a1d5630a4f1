//! A multi-tenant record store with deterministic, collision-resistant
//! addressing and per-record ownership control.
//!
//! Every record lives at a program-derived address computed from a fixed
//! domain tag and the value of a global creation counter captured at
//! creation time.  The store re-derives and re-checks each address (and its
//! disambiguating bump seed) on every access, so a forged entry is rejected
//! rather than read.  Mutation is restricted to the record's owner; deletion
//! is open to the owner and to the administrator recorded at initialization.

pub mod addr;
pub mod laws;
pub mod store;
