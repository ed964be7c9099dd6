//! Verified core of an exhibitor-directory harvester.
//!
//! The library models one exhibitor as a [`record::Exhibitor`], normalizes the
//! raw field arrays a search page delivers, mines enrichment fields out of the
//! loosely structured detail documents, merges and deduplicates page batches,
//! and accounts for the final record set. All network and file plumbing lives
//! outside the library and hands plain values in and out.

pub mod extract;
pub mod flatjson;
pub mod pipeline;
pub mod record;
pub mod text;

use vstd::prelude::*;

verus! {

/// Number of records requested per search page.
pub const PAGE_SIZE: usize = 100;

} // verus!
