use prole::gtdb::taxonomy_rank::TaxonomyRank;

#[test]
fn test_prefix() {
    assert_eq!(TaxonomyRank::Domain.prefix(), "d");
    assert_eq!(TaxonomyRank::Phylum.prefix(), "p");
    assert_eq!(TaxonomyRank::Class.prefix(), "c");
    assert_eq!(TaxonomyRank::Order.prefix(), "o");
    assert_eq!(TaxonomyRank::Family.prefix(), "f");
    assert_eq!(TaxonomyRank::Genus.prefix(), "g");
    assert_eq!(TaxonomyRank::Species.prefix(), "s");
}

#[test]
fn test_lower() {
    assert_eq!(TaxonomyRank::Domain.lower(), Some(TaxonomyRank::Phylum));
    assert_eq!(TaxonomyRank::Phylum.lower(), Some(TaxonomyRank::Class));
    assert_eq!(TaxonomyRank::Class.lower(), Some(TaxonomyRank::Order));
    assert_eq!(TaxonomyRank::Order.lower(), Some(TaxonomyRank::Family));
    assert_eq!(TaxonomyRank::Family.lower(), Some(TaxonomyRank::Genus));
    assert_eq!(TaxonomyRank::Genus.lower(), Some(TaxonomyRank::Species));
    assert_eq!(TaxonomyRank::Species.lower(), None);
}

#[test]
fn test_lower_ranks() {
    let domain: Vec<TaxonomyRank> = TaxonomyRank::Domain.lower_ranks().into_iter().collect();
    assert_eq!(domain, vec![TaxonomyRank::Phylum, TaxonomyRank::Class, TaxonomyRank::Order, TaxonomyRank::Family, TaxonomyRank::Genus, TaxonomyRank::Species]);

    let phylum: Vec<TaxonomyRank> = TaxonomyRank::Phylum.lower_ranks().into_iter().collect();
    assert_eq!(phylum, vec![TaxonomyRank::Class, TaxonomyRank::Order, TaxonomyRank::Family, TaxonomyRank::Genus, TaxonomyRank::Species]);

    let class: Vec<TaxonomyRank> = TaxonomyRank::Class.lower_ranks().into_iter().collect();
    assert_eq!(class, vec![TaxonomyRank::Order, TaxonomyRank::Family, TaxonomyRank::Genus, TaxonomyRank::Species]);

    let order: Vec<TaxonomyRank> = TaxonomyRank::Order.lower_ranks().into_iter().collect();
    assert_eq!(order, vec![TaxonomyRank::Family, TaxonomyRank::Genus, TaxonomyRank::Species]);

    let family: Vec<TaxonomyRank> = TaxonomyRank::Family.lower_ranks().into_iter().collect();
    assert_eq!(family, vec![TaxonomyRank::Genus, TaxonomyRank::Species]);

    let genus: Vec<TaxonomyRank> = TaxonomyRank::Genus.lower_ranks().into_iter().collect();
    assert_eq!(genus, vec![TaxonomyRank::Species]);

    let species: Vec<TaxonomyRank> = TaxonomyRank::Species.lower_ranks().into_iter().collect();
    assert_eq!(species, vec![]);
}

#[test]
fn test_lower_ranks_inclusive() {
    let domain: Vec<TaxonomyRank> = TaxonomyRank::Domain.lower_ranks_inclusive().into_iter().collect();
    assert_eq!(domain, vec![TaxonomyRank::Domain, TaxonomyRank::Phylum, TaxonomyRank::Class, TaxonomyRank::Order, TaxonomyRank::Family, TaxonomyRank::Genus, TaxonomyRank::Species]);

    let phylum: Vec<TaxonomyRank> = TaxonomyRank::Phylum.lower_ranks_inclusive().into_iter().collect();
    assert_eq!(phylum, vec![TaxonomyRank::Phylum, TaxonomyRank::Class, TaxonomyRank::Order, TaxonomyRank::Family, TaxonomyRank::Genus, TaxonomyRank::Species]);

    let class: Vec<TaxonomyRank> = TaxonomyRank::Class.lower_ranks_inclusive().into_iter().collect();
    assert_eq!(class, vec![TaxonomyRank::Class, TaxonomyRank::Order, TaxonomyRank::Family, TaxonomyRank::Genus, TaxonomyRank::Species]);

    let order: Vec<TaxonomyRank> = TaxonomyRank::Order.lower_ranks_inclusive().into_iter().collect();
    assert_eq!(order, vec![TaxonomyRank::Order, TaxonomyRank::Family, TaxonomyRank::Genus, TaxonomyRank::Species]);

    let family: Vec<TaxonomyRank> = TaxonomyRank::Family.lower_ranks_inclusive().into_iter().collect();
    assert_eq!(family, vec![TaxonomyRank::Family, TaxonomyRank::Genus, TaxonomyRank::Species]);

    let genus: Vec<TaxonomyRank> = TaxonomyRank::Genus.lower_ranks_inclusive().into_iter().collect();
    assert_eq!(genus, vec![TaxonomyRank::Genus, TaxonomyRank::Species]);

    let species: Vec<TaxonomyRank> = TaxonomyRank::Species.lower_ranks_inclusive().into_iter().collect();
    assert_eq!(species, vec![TaxonomyRank::Species]);
}

#[test]
fn test_higher() {
    assert_eq!(TaxonomyRank::Domain.higher(), None);
    assert_eq!(TaxonomyRank::Phylum.higher(), Some(TaxonomyRank::Domain));
    assert_eq!(TaxonomyRank::Class.higher(), Some(TaxonomyRank::Phylum));
    assert_eq!(TaxonomyRank::Order.higher(), Some(TaxonomyRank::Class));
    assert_eq!(TaxonomyRank::Family.higher(), Some(TaxonomyRank::Order));
    assert_eq!(TaxonomyRank::Genus.higher(), Some(TaxonomyRank::Family));
    assert_eq!(TaxonomyRank::Species.higher(), Some(TaxonomyRank::Genus));
}

#[test]
fn test_higher_ranks() {
    let domain: Vec<TaxonomyRank> = TaxonomyRank::Domain.higher_ranks().into_iter().collect();
    assert_eq!(domain, vec![]);

    let phylum: Vec<TaxonomyRank> = TaxonomyRank::Phylum.higher_ranks().into_iter().collect();
    assert_eq!(phylum, vec![TaxonomyRank::Domain]);

    let class: Vec<TaxonomyRank> = TaxonomyRank::Class.higher_ranks().into_iter().collect();
    assert_eq!(class, vec![TaxonomyRank::Phylum, TaxonomyRank::Domain]);

    let order: Vec<TaxonomyRank> = TaxonomyRank::Order.higher_ranks().into_iter().collect();
    assert_eq!(order, vec![TaxonomyRank::Class, TaxonomyRank::Phylum, TaxonomyRank::Domain]);

    let family: Vec<TaxonomyRank> = TaxonomyRank::Family.higher_ranks().into_iter().collect();
    assert_eq!(family, vec![TaxonomyRank::Order, TaxonomyRank::Class, TaxonomyRank::Phylum, TaxonomyRank::Domain]);

    let genus: Vec<TaxonomyRank> = TaxonomyRank::Genus.higher_ranks().into_iter().collect();
    assert_eq!(genus, vec![TaxonomyRank::Family, TaxonomyRank::Order, TaxonomyRank::Class, TaxonomyRank::Phylum, TaxonomyRank::Domain]);

    let species: Vec<TaxonomyRank> = TaxonomyRank::Species.higher_ranks().into_iter().collect();
    assert_eq!(species, vec![TaxonomyRank::Genus, TaxonomyRank::Family, TaxonomyRank::Order, TaxonomyRank::Class, TaxonomyRank::Phylum, TaxonomyRank::Domain]);
}

#[test]
fn test_higher_ranks_inclusive() {
    let domain: Vec<TaxonomyRank> = TaxonomyRank::Domain.higher_ranks_inclusive().into_iter().collect();
    assert_eq!(domain, vec![TaxonomyRank::Domain]);

    let phylum: Vec<TaxonomyRank> = TaxonomyRank::Phylum.higher_ranks_inclusive().into_iter().collect();
    assert_eq!(phylum, vec![TaxonomyRank::Phylum, TaxonomyRank::Domain]);

    let class: Vec<TaxonomyRank> = TaxonomyRank::Class.higher_ranks_inclusive().into_iter().collect();
    assert_eq!(class, vec![TaxonomyRank::Class, TaxonomyRank::Phylum, TaxonomyRank::Domain]);

    let order: Vec<TaxonomyRank> = TaxonomyRank::Order.higher_ranks_inclusive().into_iter().collect();
    assert_eq!(order, vec![TaxonomyRank::Order, TaxonomyRank::Class, TaxonomyRank::Phylum, TaxonomyRank::Domain]);

    let family: Vec<TaxonomyRank> = TaxonomyRank::Family.higher_ranks_inclusive().into_iter().collect();
    assert_eq!(family, vec![TaxonomyRank::Family, TaxonomyRank::Order, TaxonomyRank::Class, TaxonomyRank::Phylum, TaxonomyRank::Domain]);

    let genus: Vec<TaxonomyRank> = TaxonomyRank::Genus.higher_ranks_inclusive().into_iter().collect();
    assert_eq!(genus, vec![TaxonomyRank::Genus, TaxonomyRank::Family, TaxonomyRank::Order, TaxonomyRank::Class, TaxonomyRank::Phylum, TaxonomyRank::Domain]);

    let species: Vec<TaxonomyRank> = TaxonomyRank::Species.higher_ranks_inclusive().into_iter().collect();
    assert_eq!(species, vec![TaxonomyRank::Species, TaxonomyRank::Genus, TaxonomyRank::Family, TaxonomyRank::Order, TaxonomyRank::Class, TaxonomyRank::Phylum, TaxonomyRank::Domain]);
}

#[test]
fn rank_index_order() {
    assert_eq!(TaxonomyRank::Domain.index(), 0);
    assert_eq!(TaxonomyRank::Species.index(), 6);
}
