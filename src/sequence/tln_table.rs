//! Codon translation tables.
use vstd::prelude::*;

use crate::text::chars_of;

verus! {

/// The position of a nucleotide in the order `A`, `C`, `G`, `T`, or `-1`
/// for any other character.
pub open spec fn base_index(c: char) -> int {
    if c == 'A' {
        0
    } else if c == 'C' {
        1
    } else if c == 'G' {
        2
    } else if c == 'T' {
        3
    } else {
        -1
    }
}

/// `c` is one of the nucleotides `A`, `C`, `G`, `T`.
pub open spec fn is_base(c: char) -> bool {
    base_index(c) >= 0
}

/// `s` is a codon: three nucleotides.
pub open spec fn is_codon(s: Seq<char>) -> bool {
    s.len() == 3 && is_base(s[0]) && is_base(s[1]) && is_base(s[2])
}

/// The amino acids of the standard bacterial, archaeal and plant plastid
/// code (NCBI table 11), one per codon in the order `AAA`, `AAC`, `AAG`,
/// `AAT`, `ACA`, ... `TTT`; `-` marks a stop codon.
pub open spec fn table_11() -> Seq<char> {
    seq![
        'K', 'N', 'K', 'N', 'T', 'T', 'T', 'T', 'R', 'S', 'R', 'S', 'I', 'I', 'M', 'I',
        'Q', 'H', 'Q', 'H', 'P', 'P', 'P', 'P', 'R', 'R', 'R', 'R', 'L', 'L', 'L', 'L',
        'E', 'D', 'E', 'D', 'A', 'A', 'A', 'A', 'G', 'G', 'G', 'G', 'V', 'V', 'V', 'V',
        '-', 'Y', '-', 'Y', 'S', 'S', 'S', 'S', '-', 'C', 'W', 'C', 'L', 'F', 'L', 'F',
    ]
}

/// The position of codon `a b c` in a table.
pub open spec fn codon_index(a: char, b: char, c: char) -> int {
    16 * base_index(a) + 4 * base_index(b) + base_index(c)
}

/// Specify the translation table for encoding.
#[derive(Debug, Clone, Copy, PartialEq, Eq, Structural)]
pub enum TranslationTable {
    T11,
}

impl TranslationTable {
    /// The amino acids of this table, in codon order.
    pub open spec fn spec_table(&self) -> Seq<char> {
        match self {
            TranslationTable::T11 => table_11(),
        }
    }

    /// The amino acid that this table assigns to codon `a b c`.
    pub open spec fn amino_acid(&self, a: char, b: char, c: char) -> char {
        self.spec_table()[codon_index(a, b, c)]
    }

    /// The amino acids of this table, in codon order.
    pub fn table(&self) -> (r: Vec<char>)
        ensures
            r@ == self.spec_table(),
    {
        match self {
            TranslationTable::T11 => {
                let r = vec![
                    'K', 'N', 'K', 'N', 'T', 'T', 'T', 'T', 'R', 'S', 'R', 'S', 'I', 'I', 'M', 'I',
                    'Q', 'H', 'Q', 'H', 'P', 'P', 'P', 'P', 'R', 'R', 'R', 'R', 'L', 'L', 'L', 'L',
                    'E', 'D', 'E', 'D', 'A', 'A', 'A', 'A', 'G', 'G', 'G', 'G', 'V', 'V', 'V', 'V',
                    '-', 'Y', '-', 'Y', 'S', 'S', 'S', 'S', '-', 'C', 'W', 'C', 'L', 'F', 'L', 'F',
                ];
                assert(r@ =~= table_11());
                r
            },
        }
    }

    /// The amino acid encoded by `codon`.
    pub fn translate(&self, codon: &str) -> (r: char)
        requires
            is_codon(codon@),
        ensures
            r == self.amino_acid(codon@[0], codon@[1], codon@[2]),
    {
        let t = self.table();
        let c = chars_of(codon);
        amino_acid_at(&t, c[0], c[1], c[2])
    }
}

/// The position of nucleotide `c`.
fn base_at(c: char) -> (r: usize)
    requires
        is_base(c),
    ensures
        r == base_index(c),
        r < 4,
{
    if c == 'A' {
        0
    } else if c == 'C' {
        1
    } else if c == 'G' {
        2
    } else {
        3
    }
}

/// The entry of table `t` for codon `a b c`.
pub fn amino_acid_at(t: &Vec<char>, a: char, b: char, c: char) -> (r: char)
    requires
        t.len() == 64,
        is_base(a),
        is_base(b),
        is_base(c),
    ensures
        r == t@[codon_index(a, b, c)],
{
    let i = base_at(a);
    let j = base_at(b);
    let k = base_at(c);
    t[16 * i + 4 * j + k]
}

} // verus!
