//! Genome FASTA files, held as a map from sequence id to description and
//! sequence.
use vstd::prelude::*;
use vstd::hash_map::StringHashMap;
use vstd::utf8::encode_utf8;

use crate::error::{ErrorModel, ProleError, ProleResult};
use crate::text::{chars_of, string_of};

verus! {

/// Character that marks a translated stop codon at the end of a sequence.
pub const STOP: char = '*';

/// One record as a FASTA reader yields it.
pub struct FastaRecord {
    pub id: String,
    pub desc: Option<String>,
    pub seq: String,
}

/// The view of an optional string.
pub open spec fn opt_view(o: Option<String>) -> Option<Seq<char>> {
    match o {
        Some(s) => Some(s@),
        None => None,
    }
}

impl View for FastaRecord {
    type V = (Seq<char>, Option<Seq<char>>, Seq<char>);

    open spec fn view(&self) -> (Seq<char>, Option<Seq<char>>, Seq<char>) {
        (self.id@, opt_view(self.desc), self.seq@)
    }
}

/// `s` without one trailing stop marker.
pub open spec fn strip_stop(s: Seq<char>) -> Seq<char> {
    if s.len() > 0 && s.last() == STOP {
        s.drop_last()
    } else {
        s
    }
}

/// What a sequence of records reads as: each id maps to its description and
/// its sequence without a trailing stop marker; a repeated id is an error.
pub open spec fn fasta_spec(records: Seq<(Seq<char>, Option<Seq<char>>, Seq<char>)>) -> Result<
    Map<Seq<char>, (Option<Seq<char>>, Seq<char>)>,
    ErrorModel,
>
    decreases records.len(),
{
    if records.len() == 0 {
        Ok(Map::empty())
    } else {
        match fasta_spec(records.drop_last()) {
            Ok(m) => {
                let (id, desc, seq) = records.last();
                if m.contains_key(id) {
                    Err(ErrorModel::DuplicateRecord(id))
                } else {
                    Ok(m.insert(id, (desc, strip_stop(seq))))
                }
            },
            Err(e) => Err(e),
        }
    }
}

proof fn lemma_fasta_stops(records: Seq<(Seq<char>, Option<Seq<char>>, Seq<char>)>, n: int)
    requires
        0 <= n <= records.len(),
    ensures
        fasta_spec(records.take(n)) is Err ==> fasta_spec(records) == fasta_spec(
            records.take(n),
        ),
    decreases records.len() - n,
{
    if n < records.len() {
        assert(records.take(n + 1).drop_last() =~= records.take(n));
        lemma_fasta_stops(records, n + 1);
    } else {
        assert(records.take(n) =~= records);
    }
}

/// A genome FASTA file. Sequence ids are unique.
pub struct FastaFile(pub StringHashMap<(Option<String>, String)>);

impl FastaFile {
    /// The records, keyed by id.
    pub open spec fn records_view(&self) -> Map<Seq<char>, (Option<Seq<char>>, Seq<char>)> {
        self.0@.map_values(|v: (Option<String>, String)| (opt_view(v.0), v.1@))
    }

    /// Builds the file from the records of a FASTA reader, in order.
    pub fn from_records(records: &Vec<FastaRecord>) -> (r: ProleResult<Self>)
        ensures
            match r {
                Ok(f) => fasta_spec(records@.map_values(|x: FastaRecord| x@)) == Ok::<
                    Map<Seq<char>, (Option<Seq<char>>, Seq<char>)>,
                    ErrorModel,
                >(f.records_view()),
                Err(e) => fasta_spec(records@.map_values(|x: FastaRecord| x@)) == Err::<
                    Map<Seq<char>, (Option<Seq<char>>, Seq<char>)>,
                    ErrorModel,
                >(e@),
            },
    {
        let mut out: StringHashMap<(Option<String>, String)> = StringHashMap::new();
        let ghost all = records@.map_values(|x: FastaRecord| x@);
        proof {
            assert(out@.map_values(|v: (Option<String>, String)| (opt_view(v.0), v.1@))
                =~= Map::empty());
            assert(all.take(0) =~= Seq::<(Seq<char>, Option<Seq<char>>, Seq<char>)>::empty());
        }
        let mut i: usize = 0;
        while i < records.len()
            invariant
                i <= records.len(),
                all == records@.map_values(|x: FastaRecord| x@),
                fasta_spec(all.take(i as int)) == Ok::<
                    Map<Seq<char>, (Option<Seq<char>>, Seq<char>)>,
                    ErrorModel,
                >(out@.map_values(|v: (Option<String>, String)| (opt_view(v.0), v.1@))),
            decreases records.len() - i,
        {
            let rec = &records[i];
            proof {
                lemma_fasta_stops(all, i + 1);
                assert(all.take(i + 1).drop_last() =~= all.take(i as int));
                assert(all.take(i + 1).last() == rec@);
            }
            if out.contains_key(rec.id.as_str()) {
                return Err(ProleError::DuplicateRecord(rec.id.clone()));
            }
            let desc = match &rec.desc {
                Some(d) => Some(d.clone()),
                None => None,
            };
            let chars = chars_of(rec.seq.as_str());
            let n = chars.len();
            let seq = if n > 0 && chars[n - 1] == STOP {
                string_of(&chars, 0, n - 1)
            } else {
                string_of(&chars, 0, n)
            };
            proof {
                assert(seq@ =~= strip_stop(rec.seq@));
                assert(opt_view(desc) == opt_view(rec.desc));
                assert(out@.insert(rec.id@, (desc, seq)).map_values(
                    |v: (Option<String>, String)| (opt_view(v.0), v.1@),
                ) =~= out@.map_values(|v: (Option<String>, String)| (opt_view(v.0), v.1@)).insert(
                    rec.id@,
                    (opt_view(rec.desc), strip_stop(rec.seq@)),
                ));
            }
            out.insert(rec.id.clone(), (desc, seq));
            i = i + 1;
        }
        proof {
            assert(all.take(records.len() as int) =~= all);
        }
        Ok(FastaFile(out))
    }

    /// The length in bytes of the sequence stored at `contig`.
    pub fn get_length(&self, contig: &str) -> (r: Option<usize>)
        ensures
            match r {
                Some(n) => self.0@.contains_key(contig@) && n == encode_utf8(
                    self.0@[contig@].1@,
                ).len() as usize,
                None => !self.0@.contains_key(contig@),
            },
    {
        match self.get_sequence(contig) {
            Some(seq) => Some(seq.len()),
            None => None,
        }
    }

    /// The sequence stored at `contig`.
    pub fn get_sequence(&self, contig: &str) -> (r: Option<&str>)
        ensures
            match r {
                Some(s) => self.0@.contains_key(contig@) && s@ == self.0@[contig@].1@,
                None => !self.0@.contains_key(contig@),
            },
    {
        match self.0.get(contig) {
            Some(hit) => Some(hit.1.as_str()),
            None => None,
        }
    }

    /// The description stored at `contig`, if the record has one.
    pub fn get_description(&self, contig: &str) -> (r: Option<&str>)
        ensures
            match r {
                Some(d) => self.0@.contains_key(contig@) && opt_view(self.0@[contig@].0) == Some(
                    d@,
                ),
                None => !self.0@.contains_key(contig@) || self.0@[contig@].0 is None,
            },
    {
        match self.0.get(contig) {
            Some(hit) => match &hit.0 {
                Some(d) => Some(d.as_str()),
                None => None,
            },
            None => None,
        }
    }
}

} // verus!
