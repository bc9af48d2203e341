use prole::genome::genome_id::GenomeId;

#[test]
fn test_to_canonical() {
    assert_eq!(GenomeId("GB_GCA_123456789.1".to_string()).to_canonical(), Some(GenomeId("G123456789".to_string())));
    assert_eq!(GenomeId("RS_GCF_123456789.1".to_string()).to_canonical(), Some(GenomeId("G123456789".to_string())));
    assert_eq!(GenomeId("GCA_123456789.1".to_string()).to_canonical(), Some(GenomeId("G123456789".to_string())));
    assert_eq!(GenomeId("GCF_123456789.1".to_string()).to_canonical(), Some(GenomeId("G123456789".to_string())));
    assert_eq!(GenomeId("something".to_string()).to_canonical(), None);
    assert_eq!(GenomeId("".to_string()).to_canonical(), None);
}

#[test]
fn test_to_short() {
    assert_eq!(GenomeId("GB_GCA_123456789.1".to_string()).to_short(), Some(GenomeId("GCA_123456789.1".to_string())));
    assert_eq!(GenomeId("RS_GCF_123456789.1".to_string()).to_short(), Some(GenomeId("GCF_123456789.1".to_string())));
    assert_eq!(GenomeId("GCA_123456789.1".to_string()).to_short(), Some(GenomeId("GCA_123456789.1".to_string())));
    assert_eq!(GenomeId("GCF_123456789.1".to_string()).to_short(), Some(GenomeId("GCF_123456789.1".to_string())));
    assert_eq!(GenomeId("something".to_string()).to_short(), None);
    assert_eq!(GenomeId("".to_string()).to_short(), None);
}

#[test]
fn accession_near_misses_are_rejected() {
    // GenBank prefix on a RefSeq accession.
    assert_eq!(GenomeId("GB_GCF_123456789.1".to_string()).to_canonical(), None);
    // Eight digits.
    assert_eq!(GenomeId("GCA_12345678.1".to_string()).to_short(), None);
    // Two-digit version.
    assert_eq!(GenomeId("GCA_123456789.12".to_string()).to_canonical(), None);
    // Missing dot.
    assert_eq!(GenomeId("GCA_123456789_1".to_string()).to_canonical(), None);
    // Trailing text.
    assert_eq!(GenomeId("GCA_123456789.1x".to_string()).to_short(), None);
    // A canonical id is not an accession.
    assert_eq!(GenomeId("G123456789".to_string()).to_canonical(), None);
}

#[test]
fn accession_keeps_digits_and_version() {
    assert_eq!(
        GenomeId("RS_GCF_000246985.2".to_string()).to_canonical(),
        Some(GenomeId("G000246985".to_string()))
    );
    assert_eq!(
        GenomeId("RS_GCF_000246985.2".to_string()).to_short(),
        Some(GenomeId("GCF_000246985.2".to_string()))
    );
}
