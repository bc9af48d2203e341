//! The GTDB R214 metadata file: one tab-separated row per genome.
use vstd::prelude::*;
use vstd::hash_map::StringHashMap;

use crate::error::{ErrorModel, ProleError, ProleResult};
use crate::genome::genome_id::GenomeId;
use crate::gtdb::taxonomy::{taxonomy_spec, Taxonomy};
use crate::text::{
    chars_of, fields_view, has_prefix, lines_view, split_fields, split_on, starts_with,
    string_from,
};

verus! {

/// Number of columns of a metadata row.
pub const METADATA_COLUMNS: usize = 110;

/// Column of the "is a GTDB representative" flag.
pub const REPRESENTATIVE_COLUMN: usize = 15;

/// Column of the GTDB taxonomy string.
pub const TAXONOMY_COLUMN: usize = 16;

/// A row of the [`GtdbMetadataR214`] file.
pub struct GtdbMetadataR214Row {
    pub accession: GenomeId,
    pub gtdb_representative: bool,
    pub gtdb_taxonomy: Taxonomy,
}

/// The mathematical model of a [`GtdbMetadataR214Row`].
pub struct RowModel {
    pub accession: Seq<char>,
    pub gtdb_representative: bool,
    pub gtdb_taxonomy: Seq<Seq<char>>,
}

impl View for GtdbMetadataR214Row {
    type V = RowModel;

    open spec fn view(&self) -> RowModel {
        RowModel {
            accession: self.accession.0@,
            gtdb_representative: self.gtdb_representative,
            gtdb_taxonomy: self.gtdb_taxonomy@,
        }
    }
}

/// What a metadata row reads as: its first column is the accession, the
/// representative flag is the text `t`, and the taxonomy column must parse.
pub open spec fn row_spec(s: Seq<char>) -> Result<RowModel, ErrorModel> {
    let cols = split_on(s, '\t');
    if cols.len() != METADATA_COLUMNS {
        Err(ErrorModel::FieldCount { expected: METADATA_COLUMNS as nat, found: cols.len() })
    } else {
        match taxonomy_spec(cols[TAXONOMY_COLUMN as int]) {
            Ok(t) => Ok(
                RowModel {
                    accession: cols[0],
                    gtdb_representative: cols[REPRESENTATIVE_COLUMN as int] == seq!['t'],
                    gtdb_taxonomy: t,
                },
            ),
            Err(e) => Err(e),
        }
    }
}

/// The start of the header line.
pub open spec fn header_start() -> Seq<char> {
    seq![
        'a',
        'c',
        'c',
        'e',
        's',
        's',
        'i',
        'o',
        'n',
        '\t',
        'a',
        'm',
        'b',
        'i',
        'g',
        'u',
        'o',
        'u',
        's',
        '_',
        'b',
        'a',
        's',
        'e',
        's',
    ]
}

/// Lines that hold no row: blank lines and the header.
pub open spec fn is_skipped(s: Seq<char>) -> bool {
    s.len() == 0 || starts_with(s, header_start())
}

/// The rows of a metadata file, keyed by accession (a later row replaces an
/// earlier one), or the error of its first bad row.
pub open spec fn metadata_spec(lines: Seq<Seq<char>>) -> Result<Map<Seq<char>, RowModel>, ErrorModel>
    decreases lines.len(),
{
    if lines.len() == 0 {
        Ok(Map::empty())
    } else {
        match metadata_spec(lines.drop_last()) {
            Ok(m) => {
                if is_skipped(lines.last()) {
                    Ok(m)
                } else {
                    match row_spec(lines.last()) {
                        Ok(r) => Ok(m.insert(r.accession, r)),
                        Err(e) => Err(e),
                    }
                }
            },
            Err(e) => Err(e),
        }
    }
}

proof fn lemma_metadata_stops(lines: Seq<Seq<char>>, n: int)
    requires
        0 <= n <= lines.len(),
    ensures
        metadata_spec(lines.take(n)) is Err ==> metadata_spec(lines) == metadata_spec(
            lines.take(n),
        ),
    decreases lines.len() - n,
{
    if n < lines.len() {
        assert(lines.take(n + 1).drop_last() =~= lines.take(n));
        lemma_metadata_stops(lines, n + 1);
    } else {
        assert(lines.take(n) =~= lines);
    }
}

impl GtdbMetadataR214Row {
    /// Parses one tab-separated metadata row.
    pub fn from_string(string: &str) -> (r: ProleResult<Self>)
        ensures
            match r {
                Ok(row) => row_spec(string@) == Ok::<RowModel, ErrorModel>(row@),
                Err(e) => row_spec(string@) == Err::<RowModel, ErrorModel>(e@),
            },
    {
        let chars = chars_of(string);
        let cols = split_fields(&chars, '\t');
        proof {
            assert(fields_view(cols@).len() == cols.len());
        }
        if cols.len() != METADATA_COLUMNS {
            return Err(ProleError::FieldCount { expected: METADATA_COLUMNS, found: cols.len() });
        }
        proof {
            assert(fields_view(cols@)[0] == cols@[0]@);
            assert(fields_view(cols@)[15] == cols@[15]@);
            assert(fields_view(cols@)[16] == cols@[16]@);
        }
        let taxonomy_text = string_from(&cols[TAXONOMY_COLUMN]);
        let gtdb_taxonomy = match Taxonomy::from_string(taxonomy_text.as_str()) {
            Ok(t) => t,
            Err(e) => {
                return Err(e);
            },
        };
        let flag = &cols[REPRESENTATIVE_COLUMN];
        let gtdb_representative = flag.len() == 1 && flag[0] == 't';
        proof {
            if flag@ == seq!['t'] {
                assert(gtdb_representative);
            }
            if gtdb_representative {
                assert(flag@ =~= seq!['t']);
            }
        }
        Ok(GtdbMetadataR214Row { accession: GenomeId(string_from(&cols[0])), gtdb_representative, gtdb_taxonomy })
    }
}

/// The GTDB R214 metadata file.
pub struct GtdbMetadataR214 {
    pub rows: StringHashMap<GtdbMetadataR214Row>,
}

impl GtdbMetadataR214 {
    /// The rows, keyed by accession.
    pub open spec fn rows_view(&self) -> Map<Seq<char>, RowModel> {
        self.rows@.map_values(|r: GtdbMetadataR214Row| r@)
    }

    /// Parses the lines of a metadata file (line terminators removed),
    /// skipping blank lines and the header.
    pub fn from_bufreader(lines: &Vec<String>) -> (r: ProleResult<Self>)
        ensures
            match r {
                Ok(m) => metadata_spec(lines_view(lines@)) == Ok::<
                    Map<Seq<char>, RowModel>,
                    ErrorModel,
                >(m.rows_view()),
                Err(e) => metadata_spec(lines_view(lines@)) == Err::<
                    Map<Seq<char>, RowModel>,
                    ErrorModel,
                >(e@),
            },
    {
        let header: Vec<char> = vec![
            'a',
            'c',
            'c',
            'e',
            's',
            's',
            'i',
            'o',
            'n',
            '\t',
            'a',
            'm',
            'b',
            'i',
            'g',
            'u',
            'o',
            'u',
            's',
            '_',
            'b',
            'a',
            's',
            'e',
            's',
        ];
        assert(header@ == header_start());
        let mut rows: StringHashMap<GtdbMetadataR214Row> = StringHashMap::new();
        let ghost all = lines_view(lines@);
        proof {
            assert(rows@.map_values(|r: GtdbMetadataR214Row| r@) =~= Map::empty());
            assert(all.take(0) =~= Seq::<Seq<char>>::empty());
        }
        let mut i: usize = 0;
        while i < lines.len()
            invariant
                i <= lines.len(),
                all == lines_view(lines@),
                header@ == header_start(),
                metadata_spec(all.take(i as int)) == Ok::<Map<Seq<char>, RowModel>, ErrorModel>(
                    rows@.map_values(|r: GtdbMetadataR214Row| r@),
                ),
            decreases lines.len() - i,
        {
            let line = &lines[i];
            proof {
                lemma_metadata_stops(all, i + 1);
                assert(all.take(i + 1).drop_last() =~= all.take(i as int));
                assert(all.take(i + 1).last() == line@);
            }
            let chars = chars_of(line.as_str());
            if !(chars.len() == 0 || has_prefix(&chars, &header)) {
                match GtdbMetadataR214Row::from_string(line.as_str()) {
                    Ok(row) => {
                        let key = row.accession.0.clone();
                        proof {
                            assert(rows@.insert(key@, row).map_values(|r: GtdbMetadataR214Row| r@)
                                =~= rows@.map_values(|r: GtdbMetadataR214Row| r@).insert(
                                key@,
                                row@,
                            ));
                        }
                        rows.insert(key, row);
                    },
                    Err(e) => {
                        return Err(e);
                    },
                }
            }
            i = i + 1;
        }
        proof {
            assert(all.take(lines.len() as int) =~= all);
        }
        Ok(GtdbMetadataR214 { rows })
    }
}

} // verus!
