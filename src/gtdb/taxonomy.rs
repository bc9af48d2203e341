//! A 7-rank GTDB taxonomy string.
use vstd::prelude::*;

use crate::error::{ErrorModel, ProleError, ProleResult};
use crate::gtdb::taxon::Taxon;
use crate::gtdb::taxonomy_rank::{rank_index, TaxonomyRank};
use crate::text::{chars_of, fields_view, split_fields, split_on, trim, trim_chars};

verus! {

/// Number of ranks in a taxonomy string.
pub const RANK_COUNT: usize = 7;

/// A 7-rank taxonomy holding one taxon per rank.
pub struct Taxonomy {
    pub domain: Taxon,
    pub phylum: Taxon,
    pub class: Taxon,
    pub order: Taxon,
    pub family: Taxon,
    pub genus: Taxon,
    pub species: Taxon,
}

/// The taxa named by a taxonomy string: its `;`-separated fields, trimmed;
/// or the error for a string without exactly seven fields.
pub open spec fn taxonomy_spec(s: Seq<char>) -> Result<Seq<Seq<char>>, ErrorModel> {
    let fields = split_on(s, ';');
    if fields.len() != RANK_COUNT {
        Err(ErrorModel::FieldCount { expected: RANK_COUNT as nat, found: fields.len() })
    } else {
        Ok(fields.map_values(|f: Seq<char>| trim(f)))
    }
}

impl View for Taxonomy {
    type V = Seq<Seq<char>>;

    /// The taxa from the domain down to the species.
    open spec fn view(&self) -> Seq<Seq<char>> {
        seq![
            self.domain.0@,
            self.phylum.0@,
            self.class.0@,
            self.order.0@,
            self.family.0@,
            self.genus.0@,
            self.species.0@,
        ]
    }
}

impl Taxonomy {
    /// Creates a taxonomy from a string such as
    /// `d__d1;p__p1;c__c1;o__o1;f__f1;g__g1;s__s1 s2`.
    pub fn from_string(string: &str) -> (r: ProleResult<Self>)
        ensures
            match r {
                Ok(t) => taxonomy_spec(string@) == Ok::<Seq<Seq<char>>, ErrorModel>(t@),
                Err(e) => taxonomy_spec(string@) == Err::<Seq<Seq<char>>, ErrorModel>(e@),
            },
    {
        let chars = chars_of(string);
        let fields = split_fields(&chars, ';');
        if fields.len() != RANK_COUNT {
            return Err(ProleError::FieldCount { expected: RANK_COUNT, found: fields.len() });
        }
        let t = Taxonomy {
            domain: Taxon(trim_chars(&fields[0])),
            phylum: Taxon(trim_chars(&fields[1])),
            class: Taxon(trim_chars(&fields[2])),
            order: Taxon(trim_chars(&fields[3])),
            family: Taxon(trim_chars(&fields[4])),
            genus: Taxon(trim_chars(&fields[5])),
            species: Taxon(trim_chars(&fields[6])),
        };
        proof {
            let v = split_on(string@, ';').map_values(|f: Seq<char>| trim(f));
            assert(fields_view(fields@)[0] == fields@[0]@);
            assert(fields_view(fields@)[1] == fields@[1]@);
            assert(fields_view(fields@)[2] == fields@[2]@);
            assert(fields_view(fields@)[3] == fields@[3]@);
            assert(fields_view(fields@)[4] == fields@[4]@);
            assert(fields_view(fields@)[5] == fields@[5]@);
            assert(fields_view(fields@)[6] == fields@[6]@);
            assert(t@ =~= v);
        }
        Ok(t)
    }

    /// The taxon at `rank`.
    pub fn get(&self, rank: &TaxonomyRank) -> (r: &Taxon)
        ensures
            r.0@ == self@[rank_index(*rank)],
    {
        match rank {
            TaxonomyRank::Domain => &self.domain,
            TaxonomyRank::Phylum => &self.phylum,
            TaxonomyRank::Class => &self.class,
            TaxonomyRank::Order => &self.order,
            TaxonomyRank::Family => &self.family,
            TaxonomyRank::Genus => &self.genus,
            TaxonomyRank::Species => &self.species,
        }
    }
}

} // verus!
