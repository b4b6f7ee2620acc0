//! Strategy species ecology for ternary agent populations.
//!
//! The verified part of the library: the five strategy species and their
//! canonical ordering, species presence and richness, the keystone ranking,
//! the perturbation schedule of the resilience test, and the tallying of the
//! cross-domain transfer battery.

pub mod ecology;
pub mod population;
pub mod species;
pub mod transfer;

pub use ecology::{keystone_score, rank_keystones, EcologicalResilience};
pub use population::SpeciesPresence;
pub use species::Species;
pub use transfer::{CrossDomainTransfer, TransferResult};
