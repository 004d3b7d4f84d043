//! Synthetic ledger fixtures used to check the reports against known
//! figures.
use vstd::prelude::*;

verus! {

/// A synthetic account definition.
pub struct FixtureAccount {
    pub name: &'static str,
    pub code: &'static str,
    pub account_type: &'static str,
    pub subtype: &'static str,
    pub currency: &'static str,
}

} // verus!
