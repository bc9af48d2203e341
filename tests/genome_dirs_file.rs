use prole::error::ProleError;
use prole::genome::genome_id::GenomeId;
use prole::gtdb::genome_dirs_file::GenomeDirsFile;

#[test]
fn genome_dirs_file_test_from_path_valid_file() {
    let lines = vec![
        "GCA_934854595.1\t/tmp/a\tG934854595".to_string(),
        "GCA_934854545.1\t/tmp/b/b\tG934854545".to_string(),
        "GCA_934854535.1\t/c\tG934854535".to_string(),
    ];
    let result = GenomeDirsFile::from_lines(&lines);
    assert!(result.is_ok());
    let result = result.unwrap();
    assert_eq!(result.get_path(&GenomeId("GCA_934854595.1".to_string())), Some("/tmp/a".to_string()).as_ref());
    assert_eq!(result.get_path(&GenomeId("GCA_934854545.1".to_string())), Some("/tmp/b/b".to_string()).as_ref());
    assert_eq!(result.get_path(&GenomeId("GCA_934854535.1".to_string())), Some("/c".to_string()).as_ref());
}

#[test]
fn genome_dirs_unknown_and_malformed() {
    let lines = vec!["GCA_1\t/x".to_string()];
    let file = GenomeDirsFile::from_lines(&lines).unwrap();
    assert_eq!(file.get_path(&GenomeId("GCA_2".to_string())), None);
    let bad = vec!["GCA_1\t/x".to_string(), "no tab here".to_string()];
    match GenomeDirsFile::from_lines(&bad) {
        Err(ProleError::MalformedLine(l)) => assert_eq!(l, "no tab here"),
        _ => panic!("expected a malformed line"),
    }
}
