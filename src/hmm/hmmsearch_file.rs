//! The columns of a HMMER `--tblout` hit line.
//!
//! A line holds four name columns, seven floating-point columns, seven
//! integer columns and a free-text description, separated by spaces. This
//! module checks that shape, reads the names and the integers, and hands the
//! floating-point columns on as text.
use vstd::prelude::*;

use crate::error::{ErrorModel, ProleError, ProleResult};
use crate::text::{
    all_digits, all_digits_check, lemma_take_tokens_len, lemma_take_tokens_nonempty, chars_of, is_digit, lines_view, parse_u32_fields, space_end,
    space_end_at, string_of, take_tokens, take_tokens_at, u32_fields,
};

verus! {

/// Number of space-separated columns before the description.
pub const HMMSEARCH_COLUMNS: usize = 18;

/// Column of the first floating-point value.
pub const FIRST_SCORE: usize = 4;

/// Column of the first integer value.
pub const FIRST_COUNT: usize = 11;

/// A character that may occur in a floating-point column.
pub open spec fn is_score_char(c: char) -> bool {
    is_digit(c) || c == '.' || c == 'e' || c == '+' || c == '-'
}

/// `t` is made of characters that may occur in a floating-point column.
pub open spec fn all_score_chars(t: Seq<char>) -> bool {
    forall|k: int| 0 <= k < t.len() ==> is_score_char(#[trigger] t[k])
}

/// Whether `t` is made of characters that may occur in a floating-point column.
fn all_score_chars_check(t: &Vec<char>) -> (r: bool)
    ensures
        r == all_score_chars(t@),
{
    let mut k: usize = 0;
    while k < t.len()
        invariant
            k <= t.len(),
            forall|j: int| 0 <= j < k ==> is_score_char(#[trigger] t@[j]),
        decreases t.len() - k,
    {
        let c = t[k];
        if !(('0' <= c && c <= '9') || c == '.' || c == 'e' || c == '+' || c == '-') {
            return false;
        }
        k = k + 1;
    }
    true
}

/// Lines of a hit file that hold no hit: blank lines and `#` comments.
pub open spec fn is_comment_or_blank(s: Seq<char>) -> bool {
    s.len() == 0 || s[0] == '#'
}

/// Whether `line` holds no hit: it is blank or a `#` comment.
pub fn skips_line(line: &str) -> (r: bool)
    ensures
        r == is_comment_or_blank(line@),
{
    let c = chars_of(line);
    c.len() == 0 || c[0] == '#'
}

/// The description after the last column: `\s+(.+)$` from `e`. The spaces
/// take all they can but leave at least one character; no line break.
pub open spec fn description_after(s: Seq<char>, e: int) -> Option<Seq<char>> {
    let b = space_end(s, e);
    let d = if e < b && b < s.len() {
        Some(s.subrange(b, s.len() as int))
    } else if b == s.len() && e + 2 <= b {
        Some(s.subrange(b - 1, b))
    } else {
        None
    };
    match d {
        Some(t) => if t.contains('\n') {
            None
        } else {
            Some(t)
        },
        None => None,
    }
}

/// An accession column: `-` stands for none.
pub open spec fn accession_of(t: Seq<char>) -> Option<Seq<char>> {
    if t == seq!['-'] {
        None
    } else {
        Some(t)
    }
}

/// The columns of a hit line.
pub struct HmmSearchColumns {
    pub target_name: String,
    pub target_accession: Option<String>,
    pub query_name: String,
    pub query_accession: Option<String>,
    /// The seven floating-point columns as written: full-sequence e-value,
    /// score and bias, best-domain e-value, score and bias, expected domains.
    pub scores: Vec<String>,
    /// The seven integer columns: reg, clu, ov, env, dom, rep, inc.
    pub counts: Vec<u32>,
    pub description: String,
}

/// The mathematical model of [`HmmSearchColumns`].
pub struct HmmSearchModel {
    pub target_name: Seq<char>,
    pub target_accession: Option<Seq<char>>,
    pub query_name: Seq<char>,
    pub query_accession: Option<Seq<char>>,
    pub scores: Seq<Seq<char>>,
    pub counts: Seq<u32>,
    pub description: Seq<char>,
}

/// The view of an optional string.
pub open spec fn option_view(o: Option<String>) -> Option<Seq<char>> {
    match o {
        Some(s) => Some(s@),
        None => None,
    }
}

impl View for HmmSearchColumns {
    type V = HmmSearchModel;

    open spec fn view(&self) -> HmmSearchModel {
        HmmSearchModel {
            target_name: self.target_name@,
            target_accession: option_view(self.target_accession),
            query_name: self.query_name@,
            query_accession: option_view(self.query_accession),
            scores: lines_view(self.scores@),
            counts: self.counts@,
            description: self.description@,
        }
    }
}

/// The columns have the expected characters.
pub open spec fn hmmsearch_classes(ts: Seq<Seq<char>>) -> bool {
    &&& forall|k: int| FIRST_SCORE <= k < FIRST_COUNT ==> all_score_chars(#[trigger] ts[k])
    &&& forall|k: int| FIRST_COUNT <= k < HMMSEARCH_COLUMNS ==> all_digits(#[trigger] ts[k])
}

/// What a hit line reads as.
pub open spec fn hmmsearch_spec(s: Seq<char>) -> Result<HmmSearchModel, ErrorModel> {
    match take_tokens(s, 0, HMMSEARCH_COLUMNS as nat) {
        Some((ts, e)) => {
            if !hmmsearch_classes(ts) {
                Err(ErrorModel::MalformedLine(s))
            } else {
                match description_after(s, e) {
                    Some(d) => match u32_fields(ts, FIRST_COUNT as int, HMMSEARCH_COLUMNS as int) {
                        Ok(counts) => Ok(
                            HmmSearchModel {
                                target_name: ts[0],
                                target_accession: accession_of(ts[1]),
                                query_name: ts[2],
                                query_accession: accession_of(ts[3]),
                                scores: ts.subrange(FIRST_SCORE as int, FIRST_COUNT as int),
                                counts,
                                description: d,
                            },
                        ),
                        Err(err) => Err(err),
                    },
                    None => Err(ErrorModel::MalformedLine(s)),
                }
            }
        },
        None => Err(ErrorModel::MalformedLine(s)),
    }
}

/// Reads an accession column.
fn accession_from(t: &String) -> (r: Option<String>)
    ensures
        option_view(r) == accession_of(t@),
{
    let c = chars_of(t.as_str());
    if c.len() == 1 && c[0] == '-' {
        assert(c@ =~= seq!['-']);
        None
    } else {
        Some(t.clone())
    }
}

impl HmmSearchColumns {
    /// Reads the columns of one hit line.
    #[verifier::loop_isolation(false)]
    pub fn from_string(string: &str) -> (r: ProleResult<Self>)
        ensures
            match r {
                Ok(c) => hmmsearch_spec(string@) == Ok::<HmmSearchModel, ErrorModel>(c@),
                Err(e) => hmmsearch_spec(string@) == Err::<HmmSearchModel, ErrorModel>(e@),
            },
    {
        let s = chars_of(string);
        let (ts, e) = match take_tokens_at(&s, 0, HMMSEARCH_COLUMNS) {
            Some(x) => x,
            None => {
                return Err(ProleError::MalformedLine(string.to_owned()));
            },
        };
        let ghost tv = lines_view(ts@);
        proof {
            lemma_take_tokens_len(s@, 0, HMMSEARCH_COLUMNS as nat);
        }
        let mut k: usize = FIRST_SCORE;
        while k < HMMSEARCH_COLUMNS
            invariant
                tv == lines_view(ts@),
                ts.len() == HMMSEARCH_COLUMNS,
                FIRST_SCORE <= k <= HMMSEARCH_COLUMNS,
                forall|j: int| FIRST_SCORE <= j < k && j < FIRST_COUNT ==> all_score_chars(#[trigger] tv[j]),
                forall|j: int| FIRST_COUNT <= j < k ==> all_digits(#[trigger] tv[j]),
            decreases HMMSEARCH_COLUMNS - k,
        {
            let c = chars_of(ts[k].as_str());
            assert(tv[k as int] == ts@[k as int]@);
            let ok = if k < FIRST_COUNT {
                all_score_chars_check(&c)
            } else {
                all_digits_check(&c)
            };
            if !ok {
                proof {
                    if k < FIRST_COUNT {
                        assert(!all_score_chars(tv[k as int]));
                    } else {
                        assert(!all_digits(tv[k as int]));
                    }
                }
                return Err(ProleError::MalformedLine(string.to_owned()));
            }
            k = k + 1;
        }
        let b = space_end_at(&s, e);
        let n = s.len();
        let d = if e < b && b < n {
            string_of(&s, b, n)
        } else if b == n && e < b && 2 <= b - e {
            string_of(&s, b - 1, b)
        } else {
            return Err(ProleError::MalformedLine(string.to_owned()));
        };
        let dc = chars_of(d.as_str());
        assert(description_after(s@, e as int) == (if dc@.contains('\n') {
            None
        } else {
            Some(d@)
        }));
        let mut j: usize = 0;
        while j < dc.len()
            invariant
                j <= dc.len(),
                forall|i: int| 0 <= i < j ==> dc@[i] != '\n',
            decreases dc.len() - j,
        {
            if dc[j] == '\n' {
                assert(dc@.contains('\n'));
                return Err(ProleError::MalformedLine(string.to_owned()));
            }
            j = j + 1;
        }
        assert(!dc@.contains('\n'));
        proof {
            assert forall|i: int| FIRST_COUNT <= i < HMMSEARCH_COLUMNS implies ts@[i]@.len() > 0
                && all_digits(#[trigger] ts@[i]@) by {
                assert(tv[i] == ts@[i]@);
                lemma_take_tokens_nonempty(s@, 0, HMMSEARCH_COLUMNS as nat, i);
            }
        }
        let counts = match parse_u32_fields(&ts, FIRST_COUNT, HMMSEARCH_COLUMNS) {
            Ok(v) => v,
            Err(err) => {
                return Err(err);
            },
        };
        let mut scores: Vec<String> = Vec::new();
        let mut k: usize = FIRST_SCORE;
        while k < FIRST_COUNT
            invariant
                tv == lines_view(ts@),
                ts.len() == HMMSEARCH_COLUMNS,
                FIRST_SCORE <= k <= FIRST_COUNT,
                lines_view(scores@) == tv.subrange(FIRST_SCORE as int, k as int),
            decreases FIRST_COUNT - k,
        {
            let ghost old_scores = scores@;
            scores.push(ts[k].clone());
            assert(tv[k as int] == ts@[k as int]@);
            assert(lines_view(scores@) =~= lines_view(old_scores).push(tv[k as int]));
            assert(lines_view(scores@) =~= tv.subrange(FIRST_SCORE as int, k + 1));
            k = k + 1;
        }
        let r = HmmSearchColumns {
            target_name: ts[0].clone(),
            target_accession: accession_from(&ts[1]),
            query_name: ts[2].clone(),
            query_accession: accession_from(&ts[3]),
            scores,
            counts,
            description: d,
        };
        proof {
            assert(tv[0] == ts@[0]@);
            assert(tv[1] == ts@[1]@);
            assert(tv[2] == ts@[2]@);
            assert(tv[3] == ts@[3]@);
            assert(hmmsearch_classes(tv));
        }
        Ok(r)
    }
}

} // verus!
