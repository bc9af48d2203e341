//! Genome accessions and their canonical and short forms.
use vstd::prelude::*;

use crate::text::{chars_of, has_prefix, is_digit, push_char};

verus! {

/// A genome accession; any text is accepted.
#[derive(Debug, Eq, PartialEq, Hash, Clone)]
pub struct GenomeId(pub String);

/// The database prefixes of a GenBank or RefSeq accession: a GenBank one may
/// carry `GB_` in front and a RefSeq one `RS_`.
pub open spec fn is_db_prefix(p: Seq<char>) -> bool {
    p == seq!['G', 'C', 'A', '_'] || p == seq!['G', 'B', '_', 'G', 'C', 'A', '_'] || p == seq![
        'G',
        'C',
        'F',
        '_',
    ] || p == seq!['R', 'S', '_', 'G', 'C', 'F', '_']
}

proof fn lemma_db_prefix_len(p: Seq<char>)
    ensures
        is_db_prefix(p) ==> p.len() == 4 || p.len() == 7,
{
    assert(seq!['G', 'C', 'A', '_'].len() == 4);
    assert(seq!['G', 'C', 'F', '_'].len() == 4);
    assert(seq!['G', 'B', '_', 'G', 'C', 'A', '_'].len() == 7);
    assert(seq!['R', 'S', '_', 'G', 'C', 'F', '_'].len() == 7);
}

/// Number of characters after the database prefix: nine digits, a dot and a
/// version digit.
pub open spec fn tail_len() -> int {
    11
}

/// `s` is a GenBank/RefSeq accession: `[GB_]GCA_` or `[RS_]GCF_`, nine
/// digits, a dot and a one-digit version.
pub open spec fn is_accession(s: Seq<char>) -> bool {
    let n = s.len() as int;
    &&& n >= tail_len()
    &&& is_db_prefix(s.subrange(0, n - tail_len()))
    &&& forall|k: int| n - tail_len() <= k < n - 2 ==> is_digit(#[trigger] s[k])
    &&& s[n - 2] == '.'
    &&& is_digit(s[n - 1])
}

/// The nine digits of an accession.
pub open spec fn accession_digits(s: Seq<char>) -> Seq<char> {
    s.subrange(s.len() - tail_len(), s.len() - 2)
}

/// The canonical form of an accession: `G` and its nine digits.
pub open spec fn canonical_of(s: Seq<char>) -> Seq<char> {
    seq!['G'] + accession_digits(s)
}

/// The short form of an accession: without `GB_` or `RS_`.
pub open spec fn short_of(s: Seq<char>) -> Seq<char> {
    s.subrange(s.len() - tail_len() - 4, s.len() as int)
}

/// Checks the accession grammar, on characters.
fn accession_check(s: &Vec<char>) -> (r: bool)
    ensures
        r == is_accession(s@),
{
    let n = s.len();
    if n < 11 {
        return false;
    }
    let p = n - 11;
    let gca: Vec<char> = vec!['G', 'C', 'A', '_'];
    let gcf: Vec<char> = vec!['G', 'C', 'F', '_'];
    let gb_gca: Vec<char> = vec!['G', 'B', '_', 'G', 'C', 'A', '_'];
    let rs_gcf: Vec<char> = vec!['R', 'S', '_', 'G', 'C', 'F', '_'];
    let prefix_ok = (p == 4 && (has_prefix(s, &gca) || has_prefix(s, &gcf))) || (p == 7 && (
    has_prefix(s, &gb_gca) || has_prefix(s, &rs_gcf)));
    proof {
        lemma_db_prefix_len(s@.subrange(0, p as int));
    }
    if !prefix_ok {
        return false;
    }
    let mut k: usize = p;
    while k < n - 2
        invariant
            p <= k <= n - 2,
            n == s.len(),
            p == n - 11,
            forall|j: int| p <= j < k ==> is_digit(#[trigger] s@[j]),
        decreases n - 2 - k,
    {
        if !('0' <= s[k] && s[k] <= '9') {
            return false;
        }
        k = k + 1;
    }
    s[n - 2] == '.' && '0' <= s[n - 1] && s[n - 1] <= '9'
}

impl GenomeId {
    /// The canonical form `G<nine digits>` of a GenBank/RefSeq accession, or
    /// `None` for any other text.
    pub fn to_canonical(&self) -> (r: Option<Self>)
        ensures
            match r {
                Some(g) => is_accession(self.0@) && g.0@ == canonical_of(self.0@),
                None => !is_accession(self.0@),
            },
    {
        let s = chars_of(self.0.as_str());
        if !accession_check(&s) {
            return None;
        }
        let n = s.len();
        let mut out = String::new();
        push_char(&mut out, 'G');
        let mut k: usize = n - 11;
        while k < n - 2
            invariant
                n == s.len(),
                n >= 11,
                n - 11 <= k <= n - 2,
                out@ == seq!['G'] + s@.subrange(n - 11, k as int),
            decreases n - 2 - k,
        {
            push_char(&mut out, s[k]);
            assert(s@.subrange(n - 11, k + 1) =~= s@.subrange(n - 11, k as int).push(s@[k as int]));
            assert(out@ =~= seq!['G'] + s@.subrange(n - 11, k + 1));
            k = k + 1;
        }
        Some(GenomeId(out))
    }

    /// The short form of a GenBank/RefSeq accession (without `GB_`/`RS_`),
    /// or `None` for any other text.
    pub fn to_short(&self) -> (r: Option<Self>)
        ensures
            match r {
                Some(g) => is_accession(self.0@) && g.0@ == short_of(self.0@),
                None => !is_accession(self.0@),
            },
    {
        let s = chars_of(self.0.as_str());
        if !accession_check(&s) {
            return None;
        }
        let n = s.len();
        proof {
            lemma_db_prefix_len(s@.subrange(0, n - 11));
        }
        let mut out = String::new();
        let mut k: usize = n - 15;
        while k < n
            invariant
                n == s.len(),
                n >= 15,
                n - 15 <= k <= n,
                out@ == s@.subrange(n - 15, k as int),
            decreases n - k,
        {
            push_char(&mut out, s[k]);
            assert(s@.subrange(n - 15, k + 1) =~= s@.subrange(n - 15, k as int).push(s@[k as int]));
            k = k + 1;
        }
        Some(GenomeId(out))
    }
}

} // verus!
