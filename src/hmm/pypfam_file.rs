//! The columns of a PyPfam hit line.
//!
//! A line holds fifteen space-separated columns: names, integer positions,
//! a floating-point score and e-value, a significance flag and a clan. This
//! module checks that shape, reads the names and the integers, and hands the
//! floating-point columns on as text.
use vstd::prelude::*;

use crate::error::{ErrorModel, ProleError, ProleResult};
use crate::text::{
    all_digits, all_digits_check, chars_of, is_digit, lemma_take_tokens_len,
    lemma_take_tokens_nonempty, lines_view, parse_u32_fields, space_end, space_end_at,
    take_tokens, take_tokens_at, u32_fields,
};

verus! {

/// Number of columns of a hit line.
pub const PYPFAM_COLUMNS: usize = 15;

/// A character that may occur in the score, e-value and significance columns.
pub open spec fn is_pfam_score_char(c: char) -> bool {
    is_digit(c) || c == '+' || c == ',' || c == '-' || c == '.' || c == 'e'
}

/// `t` is made of characters that may occur in a score column.
pub open spec fn all_pfam_score_chars(t: Seq<char>) -> bool {
    forall|k: int| 0 <= k < t.len() ==> is_pfam_score_char(#[trigger] t[k])
}

fn all_pfam_score_chars_check(t: &Vec<char>) -> (r: bool)
    ensures
        r == all_pfam_score_chars(t@),
{
    let mut k: usize = 0;
    while k < t.len()
        invariant
            k <= t.len(),
            forall|j: int| 0 <= j < k ==> is_pfam_score_char(#[trigger] t@[j]),
        decreases t.len() - k,
    {
        let c = t[k];
        if !(('0' <= c && c <= '9') || c == '+' || c == ',' || c == '-' || c == '.' || c == 'e') {
            return false;
        }
        k = k + 1;
    }
    true
}

/// The integer columns: the alignment and envelope positions, and the HMM
/// positions and length.
pub open spec fn is_int_column(k: int) -> bool {
    (1 <= k < 5) || (8 <= k < 11)
}

/// The score, e-value and significance columns.
pub open spec fn is_score_column(k: int) -> bool {
    11 <= k < 14
}

/// The columns have the expected characters.
pub open spec fn pypfam_classes(ts: Seq<Seq<char>>) -> bool {
    &&& forall|k: int| is_int_column(k) ==> all_digits(#[trigger] ts[k])
    &&& forall|k: int| is_score_column(k) ==> all_pfam_score_chars(#[trigger] ts[k])
}

/// The significance column: `NA` for none, otherwise whether it reads `1`.
pub open spec fn significance_of(t: Seq<char>) -> Option<bool> {
    if t == seq!['N', 'A'] {
        None
    } else {
        Some(t == seq!['1'])
    }
}

/// The columns of a hit line.
pub struct PyPfamColumns {
    pub seq_id: String,
    pub align_start: u32,
    pub align_end: u32,
    pub envelope_start: u32,
    pub envelope_end: u32,
    pub hmm_acc: String,
    pub hmm_name: String,
    pub hmm_type: String,
    pub hmm_start: u32,
    pub hmm_end: u32,
    pub hmm_length: u32,
    /// The bit score, as written.
    pub bit_score: String,
    /// The e-value, as written.
    pub e_value: String,
    pub significance: Option<bool>,
    pub clan: String,
}

/// The mathematical model of [`PyPfamColumns`].
pub struct PyPfamModel {
    pub seq_id: Seq<char>,
    pub positions: Seq<u32>,
    pub hmm_acc: Seq<char>,
    pub hmm_name: Seq<char>,
    pub hmm_type: Seq<char>,
    pub hmm_positions: Seq<u32>,
    pub bit_score: Seq<char>,
    pub e_value: Seq<char>,
    pub significance: Option<bool>,
    pub clan: Seq<char>,
}

impl View for PyPfamColumns {
    type V = PyPfamModel;

    open spec fn view(&self) -> PyPfamModel {
        PyPfamModel {
            seq_id: self.seq_id@,
            positions: seq![
                self.align_start,
                self.align_end,
                self.envelope_start,
                self.envelope_end,
            ],
            hmm_acc: self.hmm_acc@,
            hmm_name: self.hmm_name@,
            hmm_type: self.hmm_type@,
            hmm_positions: seq![self.hmm_start, self.hmm_end, self.hmm_length],
            bit_score: self.bit_score@,
            e_value: self.e_value@,
            significance: self.significance,
            clan: self.clan@,
        }
    }
}

/// What a hit line reads as: fifteen columns, then nothing but spaces.
pub open spec fn pypfam_spec(s: Seq<char>) -> Result<PyPfamModel, ErrorModel> {
    match take_tokens(s, 0, PYPFAM_COLUMNS as nat) {
        Some((ts, e)) => {
            if space_end(s, e) != s.len() || !pypfam_classes(ts) {
                Err(ErrorModel::MalformedLine(s))
            } else {
                match u32_fields(ts, 1, 5) {
                    Ok(positions) => match u32_fields(ts, 8, 11) {
                        Ok(hmm_positions) => Ok(
                            PyPfamModel {
                                seq_id: ts[0],
                                positions,
                                hmm_acc: ts[5],
                                hmm_name: ts[6],
                                hmm_type: ts[7],
                                hmm_positions,
                                bit_score: ts[11],
                                e_value: ts[12],
                                significance: significance_of(ts[13]),
                                clan: ts[14],
                            },
                        ),
                        Err(err) => Err(err),
                    },
                    Err(err) => Err(err),
                }
            }
        },
        None => Err(ErrorModel::MalformedLine(s)),
    }
}

/// Reads the significance column.
fn significance_from(t: &String) -> (r: Option<bool>)
    ensures
        r == significance_of(t@),
{
    let c = chars_of(t.as_str());
    if c.len() == 2 && c[0] == 'N' && c[1] == 'A' {
        assert(c@ =~= seq!['N', 'A']);
        None
    } else {
        let one = c.len() == 1 && c[0] == '1';
        proof {
            if one {
                assert(c@ =~= seq!['1']);
            }
            if c@ == seq!['N', 'A'] {
                assert(c@[0] == 'N' && c@[1] == 'A');
            }
        }
        Some(one)
    }
}

impl PyPfamColumns {
    /// Reads the columns of one hit line.
    #[verifier::loop_isolation(false)]
    pub fn from_string(string: &str) -> (r: ProleResult<Self>)
        ensures
            match r {
                Ok(c) => pypfam_spec(string@) == Ok::<PyPfamModel, ErrorModel>(c@),
                Err(e) => pypfam_spec(string@) == Err::<PyPfamModel, ErrorModel>(e@),
            },
    {
        let s = chars_of(string);
        let (ts, e) = match take_tokens_at(&s, 0, PYPFAM_COLUMNS) {
            Some(x) => x,
            None => {
                return Err(ProleError::MalformedLine(string.to_owned()));
            },
        };
        let ghost tv = lines_view(ts@);
        proof {
            lemma_take_tokens_len(s@, 0, PYPFAM_COLUMNS as nat);
        }
        if space_end_at(&s, e) != s.len() {
            return Err(ProleError::MalformedLine(string.to_owned()));
        }
        let mut k: usize = 1;
        while k < 14
            invariant
                1 <= k <= 14,
                forall|j: int| 0 <= j < k && is_int_column(j) ==> all_digits(#[trigger] tv[j]),
                forall|j: int|
                    0 <= j < k && is_score_column(j) ==> all_pfam_score_chars(#[trigger] tv[j]),
            decreases 14 - k,
        {
            if (1 <= k && k < 5) || (8 <= k && k < 14) {
                let c = chars_of(ts[k].as_str());
                assert(tv[k as int] == ts@[k as int]@);
                if k < 11 {
                    if !all_digits_check(&c) {
                        assert(!all_digits(tv[k as int]));
                        return Err(ProleError::MalformedLine(string.to_owned()));
                    }
                } else {
                    if !all_pfam_score_chars_check(&c) {
                        assert(!all_pfam_score_chars(tv[k as int]));
                        return Err(ProleError::MalformedLine(string.to_owned()));
                    }
                }
            }
            k = k + 1;
        }
        assert(pypfam_classes(tv));
        proof {
            assert forall|i: int| (1 <= i < 5 || 8 <= i < 11) implies ts@[i]@.len() > 0
                && all_digits(#[trigger] ts@[i]@) by {
                assert(tv[i] == ts@[i]@);
                lemma_take_tokens_nonempty(s@, 0, PYPFAM_COLUMNS as nat, i);
            }
        }
        let positions = match parse_u32_fields(&ts, 1, 5) {
            Ok(v) => v,
            Err(err) => {
                return Err(err);
            },
        };
        let hmm_positions = match parse_u32_fields(&ts, 8, 11) {
            Ok(v) => v,
            Err(err) => {
                return Err(err);
            },
        };
        proof {
            lemma_u32_fields_len(tv, 1, 5);
            lemma_u32_fields_len(tv, 8, 11);
        }
        let r = PyPfamColumns {
            seq_id: ts[0].clone(),
            align_start: positions[0],
            align_end: positions[1],
            envelope_start: positions[2],
            envelope_end: positions[3],
            hmm_acc: ts[5].clone(),
            hmm_name: ts[6].clone(),
            hmm_type: ts[7].clone(),
            hmm_start: hmm_positions[0],
            hmm_end: hmm_positions[1],
            hmm_length: hmm_positions[2],
            bit_score: ts[11].clone(),
            e_value: ts[12].clone(),
            significance: significance_from(&ts[13]),
            clan: ts[14].clone(),
        };
        proof {
            assert(r@.positions =~= positions@);
            assert(r@.hmm_positions =~= hmm_positions@);
            assert(tv[0] == ts@[0]@);
            assert(tv[5] == ts@[5]@);
            assert(tv[6] == ts@[6]@);
            assert(tv[7] == ts@[7]@);
            assert(tv[11] == ts@[11]@);
            assert(tv[12] == ts@[12]@);
            assert(tv[13] == ts@[13]@);
            assert(tv[14] == ts@[14]@);
        }
        Ok(r)
    }
}

/// A successful read of the columns `k..hi` yields one value per column.
proof fn lemma_u32_fields_len(ts: Seq<Seq<char>>, k: int, hi: int)
    ensures
        match u32_fields(ts, k, hi) {
            Ok(vs) => vs.len() == if k < hi {
                hi - k
            } else {
                0
            },
            Err(_) => true,
        },
    decreases hi - k,
{
    if k < hi {
        lemma_u32_fields_len(ts, k + 1, hi);
    }
}

} // verus!
