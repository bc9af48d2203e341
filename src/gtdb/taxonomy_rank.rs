//! The seven ranks of the GTDB taxonomy.
use vstd::prelude::*;

use crate::text::push_char;

verus! {

/// An enum of the 7-rank taxonomy used by GTDB, from highest to lowest.
#[derive(Debug, Clone, Copy, PartialEq, Eq, Hash, Structural)]
pub enum TaxonomyRank {
    Domain,
    Phylum,
    Class,
    Order,
    Family,
    Genus,
    Species,
}

/// The seven ranks, from highest to lowest.
pub open spec fn ranks() -> Seq<TaxonomyRank> {
    seq![
        TaxonomyRank::Domain,
        TaxonomyRank::Phylum,
        TaxonomyRank::Class,
        TaxonomyRank::Order,
        TaxonomyRank::Family,
        TaxonomyRank::Genus,
        TaxonomyRank::Species,
    ]
}

/// The position of `r` in [`ranks`].
pub open spec fn rank_index(r: TaxonomyRank) -> int {
    match r {
        TaxonomyRank::Domain => 0,
        TaxonomyRank::Phylum => 1,
        TaxonomyRank::Class => 2,
        TaxonomyRank::Order => 3,
        TaxonomyRank::Family => 4,
        TaxonomyRank::Genus => 5,
        TaxonomyRank::Species => 6,
    }
}

/// The one-letter prefix of a rank's taxa (`d__Bacteria`).
pub open spec fn prefix_of(r: TaxonomyRank) -> char {
    match r {
        TaxonomyRank::Domain => 'd',
        TaxonomyRank::Phylum => 'p',
        TaxonomyRank::Class => 'c',
        TaxonomyRank::Order => 'o',
        TaxonomyRank::Family => 'f',
        TaxonomyRank::Genus => 'g',
        TaxonomyRank::Species => 's',
    }
}

/// The seven ranks, from highest to lowest.
pub fn all_ranks() -> (r: Vec<TaxonomyRank>)
    ensures
        r@ == ranks(),
{
    let r = vec![
        TaxonomyRank::Domain,
        TaxonomyRank::Phylum,
        TaxonomyRank::Class,
        TaxonomyRank::Order,
        TaxonomyRank::Family,
        TaxonomyRank::Genus,
        TaxonomyRank::Species,
    ];
    assert(r@ =~= ranks());
    r
}

impl TaxonomyRank {
    /// The position of this rank, `0` for the domain.
    pub fn index(&self) -> (r: usize)
        ensures
            r == rank_index(*self),
            ranks()[r as int] == *self,
    {
        match self {
            TaxonomyRank::Domain => 0,
            TaxonomyRank::Phylum => 1,
            TaxonomyRank::Class => 2,
            TaxonomyRank::Order => 3,
            TaxonomyRank::Family => 4,
            TaxonomyRank::Genus => 5,
            TaxonomyRank::Species => 6,
        }
    }

    /// The prefix associated with this rank.
    pub fn prefix(&self) -> (r: String)
        ensures
            r@ == seq![prefix_of(*self)],
    {
        let c = match self {
            TaxonomyRank::Domain => 'd',
            TaxonomyRank::Phylum => 'p',
            TaxonomyRank::Class => 'c',
            TaxonomyRank::Order => 'o',
            TaxonomyRank::Family => 'f',
            TaxonomyRank::Genus => 'g',
            TaxonomyRank::Species => 's',
        };
        let mut r = String::new();
        push_char(&mut r, c);
        assert(r@ =~= seq![c]);
        r
    }

    /// The next rank lower than this one, if any.
    pub fn lower(&self) -> (r: Option<Self>)
        ensures
            r == if rank_index(*self) == 6 {
                None
            } else {
                Some(ranks()[rank_index(*self) + 1])
            },
    {
        let i = self.index();
        if i == 6 {
            None
        } else {
            let all = all_ranks();
            Some(all[i + 1])
        }
    }

    /// The ranks lower than this one, highest first.
    pub fn lower_ranks(&self) -> (r: Vec<Self>)
        ensures
            r@ == ranks().subrange(rank_index(*self) + 1, 7),
    {
        collect_ranks(self.index() + 1, 7)
    }

    /// This rank and the ranks lower than it, highest first.
    pub fn lower_ranks_inclusive(&self) -> (r: Vec<Self>)
        ensures
            r@ == ranks().subrange(rank_index(*self), 7),
    {
        collect_ranks(self.index(), 7)
    }

    /// The next rank higher than this one, if any.
    pub fn higher(&self) -> (r: Option<Self>)
        ensures
            r == if rank_index(*self) == 0 {
                None
            } else {
                Some(ranks()[rank_index(*self) - 1])
            },
    {
        let i = self.index();
        if i == 0 {
            None
        } else {
            let all = all_ranks();
            Some(all[i - 1])
        }
    }

    /// The ranks higher than this one, lowest first.
    pub fn higher_ranks(&self) -> (r: Vec<Self>)
        ensures
            r@ == ranks().subrange(0, rank_index(*self)).reverse(),
    {
        collect_ranks_reversed(self.index())
    }

    /// This rank and the ranks higher than it, lowest first.
    pub fn higher_ranks_inclusive(&self) -> (r: Vec<Self>)
        ensures
            r@ == ranks().subrange(0, rank_index(*self) + 1).reverse(),
    {
        collect_ranks_reversed(self.index() + 1)
    }
}

/// The ranks at positions `lo..hi`, highest first.
fn collect_ranks(lo: usize, hi: usize) -> (r: Vec<TaxonomyRank>)
    requires
        lo <= hi <= 7,
    ensures
        r@ == ranks().subrange(lo as int, hi as int),
{
    let all = all_ranks();
    let mut r: Vec<TaxonomyRank> = Vec::new();
    let mut k: usize = lo;
    while k < hi
        invariant
            lo <= k <= hi <= 7,
            all@ == ranks(),
            r@ == ranks().subrange(lo as int, k as int),
        decreases hi - k,
    {
        r.push(all[k]);
        assert(r@ =~= ranks().subrange(lo as int, k + 1));
        k = k + 1;
    }
    r
}

/// The ranks at positions `0..hi`, lowest first.
fn collect_ranks_reversed(hi: usize) -> (r: Vec<TaxonomyRank>)
    requires
        hi <= 7,
    ensures
        r@ == ranks().subrange(0, hi as int).reverse(),
{
    let all = all_ranks();
    let mut r: Vec<TaxonomyRank> = Vec::new();
    let mut k: usize = hi;
    while k > 0
        invariant
            k <= hi <= 7,
            all@ == ranks(),
            r@ == ranks().subrange(k as int, hi as int).reverse(),
        decreases k,
    {
        r.push(all[k - 1]);
        assert(r@ =~= ranks().subrange(k - 1, hi as int).reverse());
        k = k - 1;
    }
    r
}

} // verus!
