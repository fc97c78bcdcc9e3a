//! Staking and identity accounting core of a proof-of-stake validator-selection
//! module.
//!
//! The library tracks which accounts are bonded, how much stake backs each
//! validator, and how rewards are distributed per era, and it enforces three
//! domain rules on top of ordinary staking: every validator must hold a unique
//! identity token ("cmix id") before it may validate, designated custody
//! accounts contribute election weight but are excluded from reward exposure
//! and slashing, and validators must advertise a commission no lower than a
//! configured floor.
//!
//! Persistent storage is modelled as explicit key-value stores over plain
//! integer account identifiers and balances; external collaborators (the
//! election provider, session rotation, the inflation schedule) enter only
//! through the values they hand the core.

pub mod arith;
pub mod exposure;
pub mod kvstore;
pub mod laws;
pub mod ledger;
pub mod migrations;
pub mod perbill;
pub mod points;
pub mod staking;
pub mod system;
pub mod wots;

use vstd::prelude::*;

verus! {

/// Account identifier (stash or controller).
pub type AccountId = u64;

/// Balance of an account, in the smallest currency unit.
pub type Balance = u64;

/// Index of an era, a fixed-length accounting period.
pub type EraIndex = u32;

/// Identity token required to validate (a "cmix id").
pub type CmixId = u64;

} // verus!
