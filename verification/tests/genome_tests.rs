use qtlreaper::{Dataset, DatasetError, Genotype, Locus, Marker, Metadata};

fn bxd_metadata() -> Metadata {
    Metadata {
        name: String::from("BXD"),
        maternal: String::from("B6"),
        paternal: String::from("D"),
        dataset_type: String::from("riset"),
        heterozygous: String::from("H"),
        unknown: String::from("U"),
    }
}

fn header_line() -> String {
    String::from("Chr	Locus	cM	BXD1	BXD2	BXD5	BXD6")
}

#[test]
fn it_can_parse_header() {
    let header = header_line();

    let (has_mb_1, strains_1) = Dataset::parse_dataset_header(&header).unwrap();

    assert_eq!(false, has_mb_1);
    assert_eq!(vec!["BXD1", "BXD2", "BXD5", "BXD6"], strains_1);

    let header_mb = String::from("Chr	Locus	cM	Mb	BXD1	BXD2	BXD5	BXD6");
    let (has_mb_2, strains_2) = Dataset::parse_dataset_header(&header_mb).unwrap();

    assert_eq!(true, has_mb_2);
    assert_eq!(vec!["BXD1", "BXD2", "BXD5", "BXD6"], strains_2);
}

#[test]
fn short_header_is_an_error() {
    assert_eq!(
        Dataset::parse_dataset_header("Chr	Locus	cM"),
        Err(DatasetError::HeaderTooShort)
    );
}

#[test]
fn locus_line_parses_tags_and_positions() {
    let m = bxd_metadata();
    let (chr, locus) = Locus::parse_line(&m, false, "1	D1Mit1	8.3	B6	B6	D	H").unwrap();
    assert_eq!(chr, "1");
    assert_eq!(locus.marker.name, "D1Mit1");
    assert_eq!(locus.marker.centi_morgan, "8.3");
    assert_eq!(locus.marker.mega_basepair, None);
    assert_eq!(locus.marker.chromosome, "1");
    assert_eq!(
        locus.genotype,
        vec![Genotype::Mat, Genotype::Mat, Genotype::Pat, Genotype::Het]
    );
}

#[test]
fn locus_line_with_mb_column() {
    let m = bxd_metadata();
    let (_, locus) = Locus::parse_line(&m, true, "1	D1Mit1	8.3	3.2	U	D").unwrap();
    assert_eq!(locus.marker.mega_basepair, Some(String::from("3.2")));
    assert_eq!(locus.genotype, vec![Genotype::Unk, Genotype::Pat]);
}

#[test]
fn locus_line_errors() {
    let m = bxd_metadata();
    assert_eq!(
        Locus::parse_line(&m, false, "1	D1Mit1"),
        Err(DatasetError::LocusLineTooShort)
    );
    assert_eq!(
        Locus::parse_line(&m, false, "1	D1Mit1	8.3	B6	X"),
        Err(DatasetError::UnrecognizedGenotype)
    );
}

fn mk_locus(chr: &str, name: &str, cm: &str, genotype: Vec<Genotype>) -> Locus {
    Locus {
        marker: Marker {
            name: String::from(name),
            centi_morgan: String::from(cm),
            mega_basepair: None,
            chromosome: String::from(chr),
        },
        genotype,
    }
}

fn small_dataset() -> Dataset {
    let strains = vec!["S1".to_string(), "S2".to_string()];
    let mut d = Dataset::new(bxd_metadata(), false, strains);
    d.push_locus(
        "1".to_string(),
        mk_locus("1", "Mk1", "10.0", vec![Genotype::Mat, Genotype::Pat]),
    )
    .unwrap();
    d.push_locus(
        "1".to_string(),
        mk_locus("1", "Mk2", "20.0", vec![Genotype::Het, Genotype::Pat]),
    )
    .unwrap();
    d.push_locus(
        "2".to_string(),
        mk_locus("2", "Mk3", "5.0", vec![Genotype::Pat, Genotype::Mat]),
    )
    .unwrap();
    d
}

#[test]
fn push_locus_keeps_first_seen_chromosome_order() {
    let d = small_dataset();
    let names: Vec<&str> = d.genome.chromosomes.iter().map(|c| c.name.as_str()).collect();
    assert_eq!(names, vec!["1", "2"]);
    assert_eq!(d.genome.chromosomes[0].loci.len(), 2);
    assert_eq!(d.genome.chromosomes[1].loci.len(), 1);
}

#[test]
fn push_locus_checks_strain_count() {
    let mut d = small_dataset();
    let bad = mk_locus("1", "Mk4", "30.0", vec![Genotype::Mat]);
    assert_eq!(d.push_locus("1".to_string(), bad), Err(DatasetError::LengthMismatch));
}

#[test]
fn n_loci_sums_across_chromosomes() {
    let d = small_dataset();
    assert_eq!(d.n_loci(), 3);
}

#[test]
fn find_locus_returns_first_match_in_genome_order() {
    let d = small_dataset();
    assert_eq!(d.find_locus("Mk2"), Some((0, 1)));
    assert_eq!(d.find_locus("Mk3"), Some((1, 0)));
    assert_eq!(d.find_locus("Mk9"), None);
}

#[test]
fn strain_indices_maps_names_to_positions() {
    let d = small_dataset();
    let q = vec!["S2".to_string(), "S1".to_string()];
    assert_eq!(d.strain_indices(&q), Ok(vec![1, 0]));
    let bad = vec!["S3".to_string()];
    assert_eq!(d.strain_indices(&bad), Err(DatasetError::UnknownStrain));
}

#[test]
fn genotypes_subset_picks_strains_in_order() {
    let d = small_dataset();
    let l = &d.genome.chromosomes[0].loci[0];
    assert_eq!(l.genotypes_subset(&vec![1, 0, 1]), vec![
        Genotype::Pat,
        Genotype::Mat,
        Genotype::Pat
    ]);
}
