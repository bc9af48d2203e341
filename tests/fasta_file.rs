use prole::error::ProleError;
use prole::genome::fasta_file::{FastaFile, FastaRecord};

fn record(id: &str, desc: Option<&str>, seq: &str) -> FastaRecord {
    FastaRecord { id: id.to_string(), desc: desc.map(|d| d.to_string()), seq: seq.to_string() }
}

#[test]
fn fasta_file_test_from_path_valid_file() {
    let records = vec![record("foo", Some("desc1"), "ATGATG"), record("bar", Some("desc2"), "CCGGTTAA")];
    let result = FastaFile::from_records(&records);
    assert!(result.is_ok());
    let result = result.unwrap();
    assert_eq!(result.0.len(), 2);
    assert_eq!(result.get_sequence("foo").unwrap(), "ATGATG");
    assert_eq!(result.get_description("foo").unwrap(), "desc1");
    assert_eq!(result.get_sequence("bar").unwrap(), "CCGGTTAA");
    assert_eq!(result.get_description("bar").unwrap(), "desc2");
}

#[test]
fn fasta_strips_one_stop_marker() {
    let records = vec![record("prot_a", None, "MKV**"), record("prot_b", None, "*")];
    let f = FastaFile::from_records(&records).unwrap();
    assert_eq!(f.get_sequence("prot_a").unwrap(), "MKV*");
    assert_eq!(f.get_length("prot_a"), Some(4));
    assert_eq!(f.get_sequence("prot_b").unwrap(), "");
    assert_eq!(f.get_description("prot_a"), None);
    assert_eq!(f.get_length("missing"), None);
    assert_eq!(f.get_sequence("missing"), None);
}

#[test]
fn fasta_duplicate_id() {
    let records = vec![record("a", None, "AC"), record("a", None, "GT")];
    match FastaFile::from_records(&records) {
        Err(ProleError::DuplicateRecord(id)) => assert_eq!(id, "a"),
        _ => panic!("expected a duplicate record"),
    }
}
