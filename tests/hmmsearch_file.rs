use prole::error::ProleError;
use prole::hmm::hmmsearch_file::{skips_line, HmmSearchColumns};

fn score(c: &HmmSearchColumns, k: usize) -> f64 {
    c.scores[k].parse().unwrap()
}

#[test]
fn hmmsearch_file_test_from_string_valid() {
    let string = "CAKWUX010000027.1_18 -          TIGR00001            TIGR00001    1.9e-26   89.3   7.9   2.1e-26   89.2   7.9   1.0   1   0   0   1   1   1   1 # 15227 # 15421 # -1 # ID=27_18;partial=00;start_type=ATG;rbs_motif=None;rbs_spacer=None;gc_cont=0.492";
    let result = HmmSearchColumns::from_string(string);
    assert!(result.is_ok());
    let hit = result.unwrap();
    assert_eq!(hit.target_name, "CAKWUX010000027.1_18");
    assert_eq!(hit.target_accession, None);
    assert_eq!(hit.query_name, "TIGR00001");
    assert_eq!(hit.query_accession, Some("TIGR00001".to_string()));
    assert_eq!(score(&hit, 0), 1.90e-26);
    assert_eq!(score(&hit, 1), 89.3);
    assert_eq!(score(&hit, 2), 7.9);
    assert_eq!(score(&hit, 3), 2.1e-26);
    assert_eq!(score(&hit, 4), 89.2);
    assert_eq!(score(&hit, 5), 7.9);
    assert_eq!(score(&hit, 6), 1.0);
    assert_eq!(hit.counts, vec![1, 0, 0, 1, 1, 1, 1]);
    assert_eq!(hit.description, "# 15227 # 15421 # -1 # ID=27_18;partial=00;start_type=ATG;rbs_motif=None;rbs_spacer=None;gc_cont=0.492");
}

#[test]
fn test_from_string_valid_2() {
    let string = "DEJT01000119.1_4     -          TIGR04114            TIGR04114    3.7e-05   20.9  53.4     2e+03  -17.7  53.4   3.2   1   1   0   1   1   0   0 # 2754 # 3044 # 1 # ID=58_4;partial=00;start_type=ATG;rbs_motif=TAAAAA;rbs_spacer=4bp;gc_cont=0.471";
    let result = HmmSearchColumns::from_string(string);
    assert!(result.is_ok());
    let hit = result.unwrap();
    assert_eq!(hit.target_name, "DEJT01000119.1_4");
    assert_eq!(hit.target_accession, None);
    assert_eq!(hit.query_name, "TIGR04114");
    assert_eq!(hit.query_accession, Some("TIGR04114".to_string()));
    assert_eq!(score(&hit, 0), 3.7e-05);
    assert_eq!(score(&hit, 1), 20.9);
    assert_eq!(score(&hit, 2), 53.4);
    assert_eq!(score(&hit, 3), 2e+03);
    assert_eq!(score(&hit, 4), -17.7);
    assert_eq!(score(&hit, 5), 53.4);
    assert_eq!(score(&hit, 6), 3.2);
    assert_eq!(hit.counts, vec![1, 1, 0, 1, 1, 0, 0]);
    assert_eq!(hit.description, "# 2754 # 3044 # 1 # ID=58_4;partial=00;start_type=ATG;rbs_motif=TAAAAA;rbs_spacer=4bp;gc_cont=0.471");
}

#[test]
fn hmmsearch_file_test_from_string_invalid_format() {
    let string = "CAKWUX010000001.1_1       1    263      1    ";
    let result = HmmSearchColumns::from_string(string);
    assert!(result.is_err());
}

#[test]
fn hmmsearch_file_test_from_string_empty() {
    let string = "";
    let result = HmmSearchColumns::from_string(string);
    assert!(result.is_err());
}

#[test]
fn hmmsearch_count_overflow_and_bad_score() {
    let big = "t - q Q 1 2 3 4 5 6 7 1 2 3 4294967296 5 6 7 desc";
    match HmmSearchColumns::from_string(big) {
        Err(ProleError::IntOverflow(t)) => assert_eq!(t, "4294967296"),
        _ => panic!("expected an overflow"),
    }
    let max = "t - q Q 1 2 3 4 5 6 7 1 2 3 4294967295 5 6 7 desc";
    assert_eq!(HmmSearchColumns::from_string(max).unwrap().counts[3], 4294967295);
    let bad = "t - q Q 1 2 3 4 5 6 x7 1 2 3 4 5 6 7 desc";
    assert!(matches!(HmmSearchColumns::from_string(bad), Err(ProleError::MalformedLine(_))));
}

#[test]
fn hmmsearch_description_edges() {
    // The description keeps its inner spaces.
    let c = HmmSearchColumns::from_string("t a q b 1 2 3 4 5 6 7 1 2 3 4 5 6 7   some  text").unwrap();
    assert_eq!(c.description, "some  text");
    assert_eq!(c.target_accession, Some("a".to_string()));
    // Only spaces after the last column: the description is the last one.
    let c = HmmSearchColumns::from_string("t a q b 1 2 3 4 5 6 7 1 2 3 4 5 6 7   ").unwrap();
    assert_eq!(c.description, " ");
    // A single trailing space leaves no description.
    assert!(HmmSearchColumns::from_string("t a q b 1 2 3 4 5 6 7 1 2 3 4 5 6 7 ").is_err());
    assert!(HmmSearchColumns::from_string("t a q b 1 2 3 4 5 6 7 1 2 3 4 5 6 7").is_err());
}

#[test]
fn comment_and_blank_lines_hold_no_hit() {
    assert!(skips_line(""));
    assert!(skips_line("#to be ignored"));
    assert!(!skips_line(" #not a comment"));
    assert!(!skips_line("CAKWUX010000001.1_73 -"));
}
