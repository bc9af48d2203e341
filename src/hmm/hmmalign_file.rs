//! HMMER alignment files (`hmmalign` output in Stockholm layout, one block).
//!
//! Each line is classified into one of five kinds, routed into the section it
//! belongs to, and, once every line has been read, the sections are checked
//! for completeness. The parsed file then answers, per sequence, the columns
//! that the reference mask retains.
use vstd::prelude::*;
use vstd::hash_map::StringHashMap;

use crate::error::{ErrorModel, MissingSection, ProleError, ProleResult};
use crate::text::{
    chars_of, has_prefix, lines_view, push_char, space_end, space_end_at, starts_with,
    string_of, token_end, token_end_at, two_tokens, two_tokens_at, value_after, value_after_at,
};

verus! {

/// Mask character of a retained column.
pub const RETAINED: char = 'x';

/// The kind of one line of an alignment file, with the fields it carries.
pub enum LineKind {
    /// Empty, a format header (`# STOCKHOLM ...`) or the end marker (`//`).
    Ignorable,
    /// `#=GR <id> PP <value>`: posterior probabilities of one sequence.
    Posterior { id: String, value: String },
    /// `#=GC PP_cons <value>`: consensus posterior probabilities.
    Consensus(String),
    /// `#=GC RF <value>`: the reference mask.
    Mask(String),
    /// `<id> <aligned>`: one aligned sequence.
    Alignment { id: String, aligned: String },
}

/// The mathematical model of a [`LineKind`].
pub enum LineModel {
    Ignorable,
    Posterior { id: Seq<char>, value: Seq<char> },
    Consensus(Seq<char>),
    Mask(Seq<char>),
    Alignment { id: Seq<char>, aligned: Seq<char> },
}

impl View for LineKind {
    type V = LineModel;

    open spec fn view(&self) -> LineModel {
        match self {
            LineKind::Ignorable => LineModel::Ignorable,
            LineKind::Posterior { id, value } => LineModel::Posterior { id: id@, value: value@ },
            LineKind::Consensus(v) => LineModel::Consensus(v@),
            LineKind::Mask(v) => LineModel::Mask(v@),
            LineKind::Alignment { id, aligned } => LineModel::Alignment {
                id: id@,
                aligned: aligned@,
            },
        }
    }
}

/// Start of the format header line.
pub open spec fn header_marker() -> Seq<char> {
    seq!['#', ' ', 'S', 'T', 'O', 'C', 'K', 'H', 'O', 'L', 'M']
}

/// Start of the end-of-record line.
pub open spec fn end_marker() -> Seq<char> {
    seq!['/', '/']
}

/// Start of a per-sequence posterior row.
pub open spec fn posterior_prefix() -> Seq<char> {
    seq!['#', '=', 'G', 'R', ' ']
}

/// Start of the consensus posterior row.
pub open spec fn consensus_prefix() -> Seq<char> {
    seq!['#', '=', 'G', 'C', ' ', 'P', 'P', '_', 'c', 'o', 'n', 's']
}

/// Start of the reference-mask row.
pub open spec fn mask_prefix() -> Seq<char> {
    seq!['#', '=', 'G', 'C', ' ', 'R', 'F']
}

/// The marker token of a posterior row.
pub open spec fn pp_marker() -> Seq<char> {
    seq!['P', 'P']
}

/// The fields of a posterior row after its prefix: `<id>\s+PP\s+<value>$`.
pub open spec fn posterior_fields(s: Seq<char>) -> Option<(Seq<char>, Seq<char>)> {
    let i = posterior_prefix().len() as int;
    let e = token_end(s, i);
    let b = space_end(s, e);
    if i < e && e < b && b + 2 <= s.len() && s.subrange(b, b + 2) == pp_marker() {
        match value_after(s, b + 2) {
            Some(v) => Some((s.subrange(i, e), v)),
            None => None,
        }
    } else {
        None
    }
}

/// The kind of line `s`, or `None` where it is malformed. The prefixed shapes
/// are tried before the generic two-token shape.
pub open spec fn classify_spec(s: Seq<char>) -> Option<LineModel> {
    if s.len() == 0 || starts_with(s, header_marker()) || starts_with(s, end_marker()) {
        Some(LineModel::Ignorable)
    } else if starts_with(s, posterior_prefix()) {
        match posterior_fields(s) {
            Some((id, value)) => Some(LineModel::Posterior { id, value }),
            None => None,
        }
    } else if starts_with(s, consensus_prefix()) {
        match value_after(s, consensus_prefix().len() as int) {
            Some(v) => Some(LineModel::Consensus(v)),
            None => None,
        }
    } else if starts_with(s, mask_prefix()) {
        match value_after(s, mask_prefix().len() as int) {
            Some(v) => Some(LineModel::Mask(v)),
            None => None,
        }
    } else {
        match two_tokens(s, 0) {
            Some((id, aligned)) => Some(LineModel::Alignment { id, aligned }),
            None => None,
        }
    }
}

/// The boolean mask encoded by a reference-mask value: `true` where a column
/// is retained.
pub open spec fn mask_of(v: Seq<char>) -> Seq<bool> {
    Seq::new(v.len(), |i: int| v[i] == RETAINED)
}

/// The positions of `m` that hold `true`, in ascending order.
pub open spec fn retained(m: Seq<bool>) -> Seq<int>
    decreases m.len(),
{
    if m.len() == 0 {
        Seq::empty()
    } else if m.last() {
        retained(m.drop_last()).push(m.len() - 1)
    } else {
        retained(m.drop_last())
    }
}

/// The number of `true` entries of `m`.
pub open spec fn count_true(m: Seq<bool>) -> nat
    decreases m.len(),
{
    if m.len() == 0 {
        0
    } else {
        count_true(m.drop_last()) + if m.last() {
            1nat
        } else {
            0nat
        }
    }
}

/// The sections of an alignment file, as read so far.
pub struct Sections {
    pub seq: Map<Seq<char>, Seq<char>>,
    pub pp: Map<Seq<char>, Seq<char>>,
    pub pp_cons: Seq<char>,
    pub mask: Seq<bool>,
}

/// The sections before any line is read.
pub open spec fn no_sections() -> Sections {
    Sections { seq: Map::empty(), pp: Map::empty(), pp_cons: Seq::empty(), mask: Seq::empty() }
}

/// Routes one line into its section, rejecting malformed lines and repeated
/// records.
pub open spec fn step(st: Sections, s: Seq<char>) -> Result<Sections, ErrorModel> {
    match classify_spec(s) {
        None => Err(ErrorModel::MalformedLine(s)),
        Some(LineModel::Ignorable) => Ok(st),
        Some(LineModel::Posterior { id, value }) => {
            if st.pp.contains_key(id) {
                Err(ErrorModel::DuplicateRecord(s))
            } else {
                Ok(Sections { pp: st.pp.insert(id, value), ..st })
            }
        },
        Some(LineModel::Consensus(v)) => {
            if st.pp_cons.len() > 0 {
                Err(ErrorModel::DuplicateRecord(s))
            } else {
                Ok(Sections { pp_cons: v, ..st })
            }
        },
        Some(LineModel::Mask(v)) => {
            if st.mask.len() > 0 {
                Err(ErrorModel::DuplicateRecord(s))
            } else {
                Ok(Sections { mask: mask_of(v), ..st })
            }
        },
        Some(LineModel::Alignment { id, aligned }) => {
            if st.seq.contains_key(id) {
                Err(ErrorModel::DuplicateRecord(s))
            } else {
                Ok(Sections { seq: st.seq.insert(id, aligned), ..st })
            }
        },
    }
}

/// Reads `lines` in order, stopping at the first failing line.
pub open spec fn scan(lines: Seq<Seq<char>>) -> Result<Sections, ErrorModel>
    decreases lines.len(),
{
    if lines.len() == 0 {
        Ok(no_sections())
    } else {
        match scan(lines.drop_last()) {
            Ok(st) => step(st, lines.last()),
            Err(e) => Err(e),
        }
    }
}

/// The end-of-input checks, in their fixed order.
pub open spec fn validate(st: Sections) -> Result<Sections, ErrorModel> {
    if st.seq.len() == 0 {
        Err(ErrorModel::IncompleteInput(MissingSection::SequenceRows))
    } else if st.pp.len() == 0 {
        Err(ErrorModel::IncompleteInput(MissingSection::PosteriorRows))
    } else if st.seq.len() != st.pp.len() {
        Err(ErrorModel::IncompleteInput(MissingSection::CountMismatch))
    } else if st.pp_cons.len() == 0 {
        Err(ErrorModel::IncompleteInput(MissingSection::Consensus))
    } else if st.mask.len() == 0 || retained(st.mask).len() == 0 {
        Err(ErrorModel::IncompleteInput(MissingSection::Mask))
    } else {
        Ok(st)
    }
}

/// What parsing `lines` yields.
pub open spec fn parse_spec(lines: Seq<Seq<char>>) -> Result<Sections, ErrorModel> {
    match scan(lines) {
        Ok(st) => validate(st),
        Err(e) => Err(e),
    }
}

/// The views of the values of a map of strings.
pub open spec fn map_view(m: Map<Seq<char>, String>) -> Map<Seq<char>, Seq<char>> {
    m.map_values(|v: String| v@)
}

/// Classifies one line (without its line terminator).
pub fn classify(line: &str) -> (r: Option<LineKind>)
    ensures
        match r {
            Some(k) => classify_spec(line@) == Some(k@),
            None => classify_spec(line@) is None,
        },
{
    let s = chars_of(line);
    let header: Vec<char> = vec!['#', ' ', 'S', 'T', 'O', 'C', 'K', 'H', 'O', 'L', 'M'];
    let end: Vec<char> = vec!['/', '/'];
    let gr: Vec<char> = vec!['#', '=', 'G', 'R', ' '];
    let cons: Vec<char> = vec!['#', '=', 'G', 'C', ' ', 'P', 'P', '_', 'c', 'o', 'n', 's'];
    let rf: Vec<char> = vec!['#', '=', 'G', 'C', ' ', 'R', 'F'];
    assert(header@ == header_marker());
    assert(end@ == end_marker());
    assert(gr@ == posterior_prefix());
    assert(cons@ == consensus_prefix());
    assert(rf@ == mask_prefix());
    if s.len() == 0 || has_prefix(&s, &header) || has_prefix(&s, &end) {
        Some(LineKind::Ignorable)
    } else if has_prefix(&s, &gr) {
        let i: usize = gr.len();
        let e = token_end_at(&s, i);
        let b = space_end_at(&s, e);
        if i < e && e < b && 2 <= s.len() - b && s[b] == 'P' && s[b + 1] == 'P' {
            assert(s@.subrange(b as int, b + 2) =~= pp_marker());
            match value_after_at(&s, b + 2) {
                Some(value) => Some(LineKind::Posterior { id: string_of(&s, i, e), value }),
                None => None,
            }
        } else {
            proof {
                if i < e && e < b && b + 2 <= s.len() && s@.subrange(b as int, b + 2)
                    == pp_marker() {
                    assert(s@.subrange(b as int, b + 2)[0] == s@[b as int]);
                    assert(s@.subrange(b as int, b + 2)[1] == s@[b + 1]);
                }
            }
            None
        }
    } else if has_prefix(&s, &cons) {
        match value_after_at(&s, cons.len()) {
            Some(v) => Some(LineKind::Consensus(v)),
            None => None,
        }
    } else if has_prefix(&s, &rf) {
        match value_after_at(&s, rf.len()) {
            Some(v) => Some(LineKind::Mask(v)),
            None => None,
        }
    } else {
        match two_tokens_at(&s, 0) {
            Some((id, aligned)) => Some(LineKind::Alignment { id, aligned }),
            None => None,
        }
    }
}

/// The characters of `a` at the columns `cols`, in that order; `None` where a
/// column lies beyond the end of `a`.
pub open spec fn project(a: Seq<char>, cols: Seq<usize>) -> Option<Seq<char>> {
    if forall|k: int| 0 <= k < cols.len() ==> cols[k] < a.len() {
        Some(cols.map_values(|c: usize| a[c as int]))
    } else {
        None
    }
}

/// A parsed HMMER alignment file.
pub struct HmmAlignFile {
    /// Aligned sequence of each identifier.
    pub seq: StringHashMap<String>,
    /// Posterior probabilities of each identifier.
    pub pp: StringHashMap<String>,
    /// Consensus posterior probabilities.
    pub pp_cons: String,
    /// One entry per alignment column, `true` where the column is retained.
    pub mask: Vec<bool>,
    /// The retained columns, in ascending order.
    pub mask_idx: Vec<usize>,
}

impl HmmAlignFile {
    /// The sections that this file holds.
    pub open spec fn sections(&self) -> Sections {
        Sections {
            seq: map_view(self.seq@),
            pp: map_view(self.pp@),
            pp_cons: self.pp_cons@,
            mask: self.mask@,
        }
    }

    /// Every section is present and consistent, and `mask_idx` lists the
    /// retained columns of `mask`.
    pub open spec fn wf(&self) -> bool {
        &&& validate(self.sections()) == Ok::<Sections, ErrorModel>(self.sections())
        &&& self.mask_idx@.map_values(|i: usize| i as int) == retained(self.mask@)
    }

    /// What [`HmmAlignFile::get_alignment`] yields for `id`.
    pub open spec fn projection(&self, id: Seq<char>) -> Result<Seq<char>, ErrorModel> {
        if !self.seq@.contains_key(id) {
            Err(ErrorModel::NotFound(id))
        } else {
            match project(self.seq@[id]@, self.mask_idx@) {
                Some(p) => Ok(p),
                None => Err(ErrorModel::OutOfRange(id)),
            }
        }
    }

    /// Parses the lines of an alignment file (line terminators removed).
    ///
    /// Fails on the first malformed line or repeated record, and, once every
    /// line has been read, on the first missing section in the order of
    /// [`MissingSection`].
    pub fn from_bufreader(lines: &Vec<String>) -> (r: ProleResult<Self>)
        ensures
            match r {
                Ok(f) => f.wf() && parse_spec(lines_view(lines@)) == Ok::<Sections, ErrorModel>(f.sections()),
                Err(e) => parse_spec(lines_view(lines@)) == Err::<Sections, ErrorModel>(e@),
            },
    {
        let mut seq: StringHashMap<String> = StringHashMap::new();
        let mut pp: StringHashMap<String> = StringHashMap::new();
        let mut pp_cons = String::new();
        let mut mask: Vec<bool> = Vec::new();
        let mut mask_idx: Vec<usize> = Vec::new();
        let ghost all = lines_view(lines@);
        proof {
            assert(map_view(seq@) =~= Map::empty());
            assert(map_view(pp@) =~= Map::empty());
            assert(all.take(0) =~= Seq::<Seq<char>>::empty());
        }
        let mut i: usize = 0;
        while i < lines.len()
            invariant
                i <= lines.len(),
                all == lines_view(lines@),
                scan(all.take(i as int)) == Ok::<Sections, ErrorModel>(
                    Sections {
                        seq: map_view(seq@),
                        pp: map_view(pp@),
                        pp_cons: pp_cons@,
                        mask: mask@,
                    },
                ),
                mask_idx@.map_values(|k: usize| k as int) == retained(mask@),
            decreases lines.len() - i,
        {
            let line = &lines[i];
            proof {
                lemma_scan_stops(all, i + 1);
                assert(all.take(i + 1).drop_last() =~= all.take(i as int));
                assert(all.take(i + 1).last() == line@);
            }
            match classify(line.as_str()) {
                None => {
                    return Err(ProleError::MalformedLine(line.clone()));
                },
                Some(LineKind::Ignorable) => {},
                Some(LineKind::Posterior { id, value }) => {
                    if pp.contains_key(id.as_str()) {
                        return Err(ProleError::DuplicateRecord(line.clone()));
                    }
                    proof {
                        assert(map_view(pp@.insert(id@, value)) =~= map_view(pp@).insert(id@, value@));
                    }
                    pp.insert(id, value);
                },
                Some(LineKind::Consensus(v)) => {
                    if !pp_cons.as_str().is_empty() {
                        return Err(ProleError::DuplicateRecord(line.clone()));
                    }
                    pp_cons = v;
                },
                Some(LineKind::Mask(v)) => {
                    if mask.len() > 0 {
                        return Err(ProleError::DuplicateRecord(line.clone()));
                    }
                    let (m, idx) = read_mask(v.as_str());
                    mask = m;
                    mask_idx = idx;
                },
                Some(LineKind::Alignment { id, aligned }) => {
                    if seq.contains_key(id.as_str()) {
                        return Err(ProleError::DuplicateRecord(line.clone()));
                    }
                    proof {
                        assert(map_view(seq@.insert(id@, aligned)) =~= map_view(seq@).insert(id@, aligned@));
                    }
                    seq.insert(id, aligned);
                },
            }
            i = i + 1;
        }
        proof {
            assert(all.take(lines.len() as int) =~= all);
            lemma_map_view_len(seq@);
            lemma_map_view_len(pp@);
        }
        if seq.len() == 0 {
            return Err(ProleError::IncompleteInput(MissingSection::SequenceRows));
        }
        if pp.len() == 0 {
            return Err(ProleError::IncompleteInput(MissingSection::PosteriorRows));
        }
        if seq.len() != pp.len() {
            return Err(ProleError::IncompleteInput(MissingSection::CountMismatch));
        }
        if pp_cons.as_str().is_empty() {
            return Err(ProleError::IncompleteInput(MissingSection::Consensus));
        }
        if mask.len() == 0 || mask_idx.len() == 0 {
            return Err(ProleError::IncompleteInput(MissingSection::Mask));
        }
        Ok(HmmAlignFile { seq, pp, pp_cons, mask, mask_idx })
    }

    /// The characters of the aligned sequence `gene_id` at the retained
    /// columns, in ascending column order.
    pub fn get_alignment(&self, gene_id: &str) -> (r: ProleResult<String>)
        ensures
            match r {
                Ok(s) => self.projection(gene_id@) == Ok::<Seq<char>, ErrorModel>(s@),
                Err(e) => self.projection(gene_id@) == Err::<Seq<char>, ErrorModel>(e@),
            },
    {
        let aligned = match self.seq.get(gene_id) {
            Some(a) => a,
            None => {
                return Err(ProleError::NotFound(gene_id.to_owned()));
            },
        };
        let chars = chars_of(aligned.as_str());
        let mut out = String::new();
        let mut k: usize = 0;
        while k < self.mask_idx.len()
            invariant
                k <= self.mask_idx.len(),
                chars@ == aligned@,
                self.seq@.contains_key(gene_id@),
                self.seq@[gene_id@] == *aligned,
                forall|j: int| 0 <= j < k ==> self.mask_idx@[j] < chars@.len(),
                out@ == self.mask_idx@.take(k as int).map_values(|c: usize| chars@[c as int]),
            decreases self.mask_idx.len() - k,
        {
            let col = self.mask_idx[k];
            if col >= chars.len() {
                assert(!(self.mask_idx@[k as int] < self.seq@[gene_id@]@.len()));
                return Err(ProleError::OutOfRange(gene_id.to_owned()));
            }
            push_char(&mut out, chars[col]);
            proof {
                assert(self.mask_idx@.take(k + 1).map_values(|c: usize| chars@[c as int])
                    =~= self.mask_idx@.take(k as int).map_values(|c: usize| chars@[c as int]).push(chars@[col as int]));
            }
            k = k + 1;
        }
        proof {
            assert(self.mask_idx@.take(k as int) =~= self.mask_idx@);
        }
        Ok(out)
    }
}

/// The mask encoded by a reference-mask value, and its retained columns.
pub fn read_mask(v: &str) -> (r: (Vec<bool>, Vec<usize>))
    ensures
        r.0@ == mask_of(v@),
        r.1@.map_values(|k: usize| k as int) == retained(r.0@),
{
    let chars = chars_of(v);
    let mut mask: Vec<bool> = Vec::new();
    let mut idx: Vec<usize> = Vec::new();
    let mut k: usize = 0;
    proof {
        assert(idx@.map_values(|j: usize| j as int) =~= Seq::<int>::empty());
    }
    while k < chars.len()
        invariant
            k <= chars.len(),
            chars@ == v@,
            mask@ == mask_of(v@.take(k as int)),
            idx@.map_values(|j: usize| j as int) == retained(mask@),
        decreases chars.len() - k,
    {
        let keep = chars[k] == RETAINED;
        let ghost old_mask = mask@;
        let ghost old_idx = idx@;
        mask.push(keep);
        if keep {
            idx.push(k);
        }
        proof {
            assert(mask@.drop_last() =~= old_mask);
            assert(mask@ =~= mask_of(v@.take(k + 1)));
            if keep {
                assert(idx@.map_values(|j: usize| j as int) =~= old_idx.map_values(|j: usize| j as int).push(k as int));
            }
        }
        k = k + 1;
    }
    proof {
        assert(v@.take(k as int) =~= v@);
    }
    (mask, idx)
}

/// Once a prefix of the lines fails, so does the whole, with the same error.
proof fn lemma_scan_stops(lines: Seq<Seq<char>>, n: int)
    requires
        0 <= n <= lines.len(),
    ensures
        scan(lines.take(n)) is Err ==> scan(lines) == scan(lines.take(n)),
    decreases lines.len() - n,
{
    if n < lines.len() {
        assert(lines.take(n + 1).drop_last() =~= lines.take(n));
        lemma_scan_stops(lines, n + 1);
    } else {
        assert(lines.take(n) =~= lines);
    }
}

proof fn lemma_map_view_len(m: Map<Seq<char>, String>)
    ensures
        map_view(m).dom() == m.dom(),
        map_view(m).len() == m.len(),
{
    assert(map_view(m).dom() =~= m.dom());
}

/// After a successful parse the sequence and posterior sections are both
/// non-empty and hold the same number of records.
pub proof fn lemma_parsed_counts_agree(lines: Seq<Seq<char>>)
    requires
        parse_spec(lines) is Ok,
    ensures
        parse_spec(lines)->Ok_0.seq.len() > 0,
        parse_spec(lines)->Ok_0.pp.len() > 0,
        parse_spec(lines)->Ok_0.seq.len() == parse_spec(lines)->Ok_0.pp.len(),
{
}

/// The retained columns of a mask are as many as its `true` entries.
pub proof fn lemma_retained_len(m: Seq<bool>)
    ensures
        retained(m).len() == count_true(m),
    decreases m.len(),
{
    if m.len() > 0 {
        lemma_retained_len(m.drop_last());
    }
}

/// The retained columns of a mask are strictly ascending positions of the
/// mask that hold `true`, and every such position is among them.
pub proof fn lemma_retained_columns(m: Seq<bool>)
    ensures
        forall|i: int, j: int|
            0 <= i < j < retained(m).len() ==> retained(m)[i] < retained(m)[j],
        forall|k: int|
            0 <= k < retained(m).len() ==> 0 <= #[trigger] retained(m)[k] < m.len() && m[retained(
                m,
            )[k]],
        forall|c: int| 0 <= c < m.len() && m[c] ==> retained(m).contains(c),
    decreases m.len(),
{
    if m.len() > 0 {
        let p = m.drop_last();
        lemma_retained_columns(p);
        assert forall|c: int| 0 <= c < m.len() && m[c] implies retained(m).contains(c) by {
            if c < m.len() - 1 {
                assert(p[c] == m[c]);
                let k = choose|k: int| 0 <= k < retained(p).len() && retained(p)[k] == c;
                if m.last() {
                    assert(retained(m)[k] == c);
                } else {
                    assert(retained(m)[k] == c);
                }
            } else {
                assert(retained(m).last() == c);
            }
        }
    }
}

/// A projection holds exactly one character per `true` entry of the mask.
pub proof fn lemma_projection_length(f: HmmAlignFile, id: Seq<char>)
    requires
        f.wf(),
        f.projection(id) is Ok,
    ensures
        f.projection(id)->Ok_0.len() == count_true(f.mask@),
{
    lemma_retained_len(f.mask@);
    assert(f.mask_idx@.map_values(|i: usize| i as int).len() == f.mask_idx@.len());
}

/// Projecting the same identifier twice gives the same answer: the parsed
/// file is never changed by a query.
pub proof fn lemma_projection_repeatable(
    f: HmmAlignFile,
    id: Seq<char>,
    first: Result<Seq<char>, ErrorModel>,
    second: Result<Seq<char>, ErrorModel>,
)
    requires
        first == f.projection(id),
        second == f.projection(id),
    ensures
        first == second,
{
}

} // verus!
