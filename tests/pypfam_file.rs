use prole::error::ProleError;
use prole::hmm::pypfam_file::PyPfamColumns;

#[test]
fn pypfam_file_test_from_string_valid() {
    let string = "CAKWUX010000001.1_1       1    263      2    265 PF02896.19  PEP-utilizers_C   Domain    72   292   294    252.7   5.5e-76   1 CL0151 ";
    let result = PyPfamColumns::from_string(string);
    assert!(result.is_ok());
    let hit = result.unwrap();
    assert_eq!(hit.seq_id, "CAKWUX010000001.1_1");
    assert_eq!(hit.align_start, 1);
    assert_eq!(hit.align_end, 263);
    assert_eq!(hit.envelope_start, 2);
    assert_eq!(hit.envelope_end, 265);
    assert_eq!(hit.hmm_acc, "PF02896.19");
    assert_eq!(hit.hmm_name, "PEP-utilizers_C");
    assert_eq!(hit.hmm_type, "Domain");
    assert_eq!(hit.hmm_start, 72);
    assert_eq!(hit.hmm_end, 292);
    assert_eq!(hit.hmm_length, 294);
    assert_eq!(hit.bit_score.parse::<f64>().unwrap(), 252.7);
    assert_eq!(hit.e_value.parse::<f64>().unwrap(), 5.5e-76);
    assert_eq!(hit.significance, Some(true));
    assert_eq!(hit.clan, "CL0151");
}

#[test]
fn pypfam_file_test_from_string_invalid_format() {
    let string = "CAKWUX010000001.1_1       1    263      1    ";
    let result = PyPfamColumns::from_string(string);
    assert!(result.is_err());
}

#[test]
fn pypfam_file_test_from_string_empty() {
    let string = "";
    let result = PyPfamColumns::from_string(string);
    assert!(result.is_err());
}

#[test]
fn pypfam_significance_and_trailing_text() {
    let zero = "s 1 2 3 4 acc name Family 5 6 7 8.5 1e-3 0 CL1";
    assert_eq!(PyPfamColumns::from_string(zero).unwrap().significance, Some(false));
    // "NA" is not among the characters of the significance column.
    let na = "s 1 2 3 4 acc name Family 5 6 7 8.5 1e-3 NA CL1";
    assert!(matches!(PyPfamColumns::from_string(na), Err(ProleError::MalformedLine(_))));
    let extra = "s 1 2 3 4 acc name Family 5 6 7 8.5 1e-3 1 CL1 more";
    assert!(matches!(PyPfamColumns::from_string(extra), Err(ProleError::MalformedLine(_))));
    let big = "s 1 2 3 4 acc name Family 5 6 99999999999 8.5 1e-3 1 CL1";
    match PyPfamColumns::from_string(big) {
        Err(ProleError::IntOverflow(t)) => assert_eq!(t, "99999999999"),
        _ => panic!("expected an overflow"),
    }
}
