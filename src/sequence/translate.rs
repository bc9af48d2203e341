//! Translation of nucleotide sequences.
use vstd::prelude::*;

use crate::sequence::tln_table::{amino_acid_at, is_base, TranslationTable};
use crate::text::{chars_of, push_char};

verus! {

/// The amino acids encoded by the successive codons of `s`.
pub open spec fn translation(s: Seq<char>, table: TranslationTable) -> Seq<char> {
    Seq::new(
        (s.len() / 3) as nat,
        |i: int| table.amino_acid(s[3 * i], s[3 * i + 1], s[3 * i + 2]),
    )
}

/// Translates a nucleotide sequence into the corresponding amino acid
/// sequence, one codon after the other.
pub fn translate_sequence(seq: &str, table: TranslationTable) -> (r: String)
    requires
        seq@.len() % 3 == 0,
        forall|i: int| 0 <= i < seq@.len() ==> is_base(#[trigger] seq@[i]),
    ensures
        r@ == translation(seq@, table),
{
    let t = table.table();
    let s = chars_of(seq);
    let mut prot = String::new();
    let mut k: usize = 0;
    while k < s.len()
        invariant
            s@ == seq@,
            t@ == table.spec_table(),
            s.len() % 3 == 0,
            k % 3 == 0,
            k <= s.len(),
            forall|i: int| 0 <= i < s@.len() ==> is_base(#[trigger] s@[i]),
            prot@ == translation(seq@, table).take(k as int / 3),
        decreases s.len() - k,
    {
        assert(t@.len() == 64);
        let aa = amino_acid_at(&t, s[k], s[k + 1], s[k + 2]);
        push_char(&mut prot, aa);
        proof {
            assert(translation(seq@, table).take((k + 3) as int / 3) =~= translation(
                seq@,
                table,
            ).take(k as int / 3).push(aa));
        }
        k = k + 3;
    }
    proof {
        assert(translation(seq@, table).take(k as int / 3) =~= translation(seq@, table));
    }
    prot
}

} // verus!
