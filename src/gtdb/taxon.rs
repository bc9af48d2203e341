//! A single taxon name.
use vstd::prelude::*;

verus! {

/// A taxon within the GTDB, e.g. `d__Bacteria`.
#[derive(Debug, Eq, PartialEq, Hash)]
pub struct Taxon(pub String);

} // verus!
