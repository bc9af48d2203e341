//! The GTDB `genome_dirs.tsv` file: accession, directory and canonical id,
//! tab-separated.
use vstd::prelude::*;
use vstd::hash_map::StringHashMap;

use crate::error::{ErrorModel, ProleError, ProleResult};
use crate::genome::genome_id::GenomeId;
use crate::hmm::hmmalign_file::map_view;
use crate::text::{chars_of, fields_view, lines_view, split_fields, split_on, string_from};

verus! {

/// The directory of each genome in a `genome_dirs.tsv` file, keyed by the
/// accession.
pub struct GenomeDirsFile(pub StringHashMap<String>);

/// What the lines of a `genome_dirs.tsv` file read as: the first field of each
/// line maps to its second (a later line replaces an earlier one); a line with
/// no tab is malformed.
pub open spec fn dirs_spec(lines: Seq<Seq<char>>) -> Result<Map<Seq<char>, Seq<char>>, ErrorModel>
    decreases lines.len(),
{
    if lines.len() == 0 {
        Ok(Map::empty())
    } else {
        match dirs_spec(lines.drop_last()) {
            Ok(m) => {
                let cols = split_on(lines.last(), '\t');
                if cols.len() < 2 {
                    Err(ErrorModel::MalformedLine(lines.last()))
                } else {
                    Ok(m.insert(cols[0], cols[1]))
                }
            },
            Err(e) => Err(e),
        }
    }
}

proof fn lemma_dirs_stops(lines: Seq<Seq<char>>, n: int)
    requires
        0 <= n <= lines.len(),
    ensures
        dirs_spec(lines.take(n)) is Err ==> dirs_spec(lines) == dirs_spec(lines.take(n)),
    decreases lines.len() - n,
{
    if n < lines.len() {
        assert(lines.take(n + 1).drop_last() =~= lines.take(n));
        lemma_dirs_stops(lines, n + 1);
    } else {
        assert(lines.take(n) =~= lines);
    }
}

impl GenomeDirsFile {
    /// Reads the lines of a `genome_dirs.tsv` file (line terminators removed).
    pub fn from_lines(lines: &Vec<String>) -> (r: ProleResult<Self>)
        ensures
            match r {
                Ok(f) => dirs_spec(lines_view(lines@)) == Ok::<
                    Map<Seq<char>, Seq<char>>,
                    ErrorModel,
                >(map_view(f.0@)),
                Err(e) => dirs_spec(lines_view(lines@)) == Err::<
                    Map<Seq<char>, Seq<char>>,
                    ErrorModel,
                >(e@),
            },
    {
        let mut out: StringHashMap<String> = StringHashMap::new();
        let ghost all = lines_view(lines@);
        proof {
            assert(map_view(out@) =~= Map::empty());
            assert(all.take(0) =~= Seq::<Seq<char>>::empty());
        }
        let mut i: usize = 0;
        while i < lines.len()
            invariant
                i <= lines.len(),
                all == lines_view(lines@),
                dirs_spec(all.take(i as int)) == Ok::<Map<Seq<char>, Seq<char>>, ErrorModel>(
                    map_view(out@),
                ),
            decreases lines.len() - i,
        {
            let line = &lines[i];
            proof {
                lemma_dirs_stops(all, i + 1);
                assert(all.take(i + 1).drop_last() =~= all.take(i as int));
                assert(all.take(i + 1).last() == line@);
            }
            let chars = chars_of(line.as_str());
            let cols = split_fields(&chars, '\t');
            proof {
                assert(fields_view(cols@).len() == cols.len());
            }
            if cols.len() < 2 {
                return Err(ProleError::MalformedLine(line.clone()));
            }
            proof {
                assert(fields_view(cols@)[0] == cols@[0]@);
                assert(fields_view(cols@)[1] == cols@[1]@);
            }
            let genome_id = string_from(&cols[0]);
            let genome_dir = string_from(&cols[1]);
            proof {
                assert(map_view(out@.insert(genome_id@, genome_dir)) =~= map_view(out@).insert(
                    genome_id@,
                    genome_dir@,
                ));
            }
            out.insert(genome_id, genome_dir);
            i = i + 1;
        }
        proof {
            assert(all.take(lines.len() as int) =~= all);
        }
        Ok(GenomeDirsFile(out))
    }

    /// The directory of `genome_id`, if it is listed.
    pub fn get_path(&self, genome_id: &GenomeId) -> (r: Option<&String>)
        ensures
            match r {
                Some(p) => self.0@.contains_key(genome_id.0@) && *p == self.0@[genome_id.0@],
                None => !self.0@.contains_key(genome_id.0@),
            },
    {
        self.0.get(genome_id.0.as_str())
    }
}

} // verus!
