use prole::error::ProleError;
use prole::gtdb::taxonomy::Taxonomy;
use prole::gtdb::taxonomy_rank::TaxonomyRank;

#[test]
fn taxonomy_test_from_string() {
    let result = Taxonomy::from_string("d__d1;p__p1;c__c1;o__o1;f__f1;g__g1;s__s1 s2");
    assert!(result.is_ok());
    let result = result.unwrap();
    assert_eq!(result.get(&TaxonomyRank::Domain).0, "d__d1");
    assert_eq!(result.get(&TaxonomyRank::Phylum).0, "p__p1");
    assert_eq!(result.get(&TaxonomyRank::Class).0, "c__c1");
    assert_eq!(result.get(&TaxonomyRank::Order).0, "o__o1");
    assert_eq!(result.get(&TaxonomyRank::Family).0, "f__f1");
    assert_eq!(result.get(&TaxonomyRank::Genus).0, "g__g1");
    assert_eq!(result.get(&TaxonomyRank::Species).0, "s__s1 s2");
}

#[test]
fn test_from_string_spaces() {
    let result = Taxonomy::from_string("d__d1; p__p1; c__c1; o__o1; f__f1; g__g1; s__s1 s2");
    assert!(result.is_ok());
    let result = result.unwrap();
    assert_eq!(result.get(&TaxonomyRank::Domain).0, "d__d1");
    assert_eq!(result.get(&TaxonomyRank::Phylum).0, "p__p1");
    assert_eq!(result.get(&TaxonomyRank::Class).0, "c__c1");
    assert_eq!(result.get(&TaxonomyRank::Order).0, "o__o1");
    assert_eq!(result.get(&TaxonomyRank::Family).0, "f__f1");
    assert_eq!(result.get(&TaxonomyRank::Genus).0, "g__g1");
    assert_eq!(result.get(&TaxonomyRank::Species).0, "s__s1 s2");
}

#[test]
fn taxonomy_wrong_field_count() {
    match Taxonomy::from_string("d__d1;p__p1") {
        Err(ProleError::FieldCount { expected, found }) => {
            assert_eq!(expected, 7);
            assert_eq!(found, 2);
        }
        _ => panic!("expected a field count error"),
    }
    assert!(matches!(
        Taxonomy::from_string(""),
        Err(ProleError::FieldCount { expected: 7, found: 1 })
    ));
    assert!(matches!(
        Taxonomy::from_string("a;b;c;d;e;f;g;"),
        Err(ProleError::FieldCount { expected: 7, found: 8 })
    ));
}

#[test]
fn taxonomy_empty_and_padded_fields() {
    let t = Taxonomy::from_string(";\t p__p1 ;;;;;  ").unwrap();
    assert_eq!(t.get(&TaxonomyRank::Domain).0, "");
    assert_eq!(t.get(&TaxonomyRank::Phylum).0, "p__p1");
    assert_eq!(t.get(&TaxonomyRank::Species).0, "");
}

#[test]
fn taxonomy_trims_unicode_spaces() {
    let t = Taxonomy::from_string("\u{3000}d__d1\u{85};p;c;o;f;g;s").unwrap();
    assert_eq!(t.get(&TaxonomyRank::Domain).0, "d__d1");
}
