use qtlreaper::Genotype::{Het, Mat, Pat, Unk};
use qtlreaper::{Dataset, Genotype, ImputeStep, Locus, Marker, Metadata};

fn bxd_metadata() -> Metadata {
    Metadata {
        name: String::from("BXD"),
        maternal: String::from("B6"),
        paternal: String::from("D"),
        dataset_type: String::from("riset"),
        heterozygous: String::from("H"),
        unknown: String::from("U"),
    }
}

fn mk_locus(name: &str, cm: &str, genotype: Vec<Genotype>) -> Locus {
    Locus {
        marker: Marker {
            name: String::from(name),
            centi_morgan: String::from(cm),
            mega_basepair: None,
            chromosome: String::from("1"),
        },
        genotype,
    }
}

/// The six-locus, three-strain chromosome whose interior unknowns the
/// estimation step plan must cover.
fn unk_dataset() -> Dataset {
    let strains = vec!["S1".to_string(), "S2".to_string(), "S3".to_string()];
    let mut d = Dataset::new(bxd_metadata(), false, strains);
    let rows = vec![
        ("Mk1", "10.0", vec![Mat, Mat, Pat]),
        ("Mk2", "30.3", vec![Unk, Pat, Unk]),
        ("Mk3", "40.1", vec![Unk, Unk, Pat]),
        ("Mk4", "50.2", vec![Unk, Unk, Unk]),
        ("Mk5", "60.3", vec![Pat, Mat, Unk]),
        ("Mk6", "70.1", vec![Pat, Mat, Mat]),
    ];
    for (name, cm, genos) in rows {
        d.push_locus("1".to_string(), mk_locus(name, cm, genos)).unwrap();
    }
    d
}

fn step(
    strain: usize,
    locus: usize,
    prev: usize,
    next: usize,
    prev_geno: Genotype,
    next_geno: Genotype,
) -> ImputeStep {
    ImputeStep { strain, locus, prev, next, prev_geno, next_geno }
}

#[test]
fn estimation_plan_pairs_every_unknown_with_its_flanks() {
    let mut d = unk_dataset();
    let plans = d.estimate_unknown();
    assert_eq!(plans.len(), 1);
    let expected = vec![
        step(0, 1, 0, 4, Mat, Pat),
        step(0, 2, 0, 4, Mat, Pat),
        step(0, 3, 0, 4, Mat, Pat),
        step(1, 2, 1, 4, Pat, Mat),
        step(1, 3, 1, 4, Pat, Mat),
        step(2, 1, 0, 2, Pat, Pat),
        step(2, 3, 2, 5, Pat, Mat),
        step(2, 4, 2, 5, Pat, Mat),
    ];
    assert_eq!(plans[0], expected);
}

#[test]
fn interior_tags_are_untouched_by_the_boundary_pass() {
    let mut d = unk_dataset();
    let _ = d.estimate_unknown();
    let loci = &d.genome.chromosomes[0].loci;
    assert_eq!(loci[0].genotype, vec![Mat, Mat, Pat]);
    assert_eq!(loci[1].genotype, vec![Unk, Pat, Unk]);
    assert_eq!(loci[3].genotype, vec![Unk, Unk, Unk]);
    assert_eq!(loci[5].genotype, vec![Pat, Mat, Mat]);
}

#[test]
fn boundary_unknowns_become_heterozygous() {
    let strains = vec!["S1".to_string(), "S2".to_string()];
    let mut d = Dataset::new(bxd_metadata(), false, strains);
    d.push_locus("1".to_string(), mk_locus("Mk1", "1.0", vec![Unk, Mat])).unwrap();
    d.push_locus("1".to_string(), mk_locus("Mk2", "2.0", vec![Pat, Mat])).unwrap();
    d.push_locus("1".to_string(), mk_locus("Mk3", "3.0", vec![Pat, Unk])).unwrap();
    let plans = d.estimate_unknown();
    let loci = &d.genome.chromosomes[0].loci;
    assert_eq!(loci[0].genotype, vec![Het, Mat]);
    assert_eq!(loci[2].genotype, vec![Pat, Het]);
    assert_eq!(plans[0], Vec::<ImputeStep>::new());
}

#[test]
fn rerunning_imputation_is_a_no_op_on_the_tags() {
    let mut d = unk_dataset();
    let plans1 = d.estimate_unknown();
    let tags_after_first: Vec<Vec<Genotype>> = d.genome.chromosomes[0]
        .loci
        .iter()
        .map(|l| l.genotype.clone())
        .collect();
    let plans2 = d.estimate_unknown();
    let tags_after_second: Vec<Vec<Genotype>> = d.genome.chromosomes[0]
        .loci
        .iter()
        .map(|l| l.genotype.clone())
        .collect();
    assert_eq!(plans1, plans2);
    assert_eq!(tags_after_first, tags_after_second);
}

#[test]
fn chromosomes_are_imputed_independently() {
    let strains = vec!["S1".to_string()];
    let mut d = Dataset::new(bxd_metadata(), false, strains);
    d.push_locus("1".to_string(), mk_locus("A1", "1.0", vec![Mat])).unwrap();
    d.push_locus("1".to_string(), mk_locus("A2", "2.0", vec![Unk])).unwrap();
    d.push_locus("1".to_string(), mk_locus("A3", "3.0", vec![Pat])).unwrap();
    d.push_locus("2".to_string(), mk_locus("B1", "1.0", vec![Mat])).unwrap();
    d.push_locus("2".to_string(), mk_locus("B2", "2.0", vec![Mat])).unwrap();
    let mut d2 = d;
    let plans = d2.estimate_unknown();
    assert_eq!(plans.len(), 2);
    assert_eq!(plans[0], vec![step(0, 1, 0, 2, Mat, Pat)]);
    assert_eq!(plans[1], Vec::<ImputeStep>::new());
}

/// Evaluates one plan step with the Haldane mapping function and the
/// expected-dosage table, exactly as the step's flanking genotypes and map
/// positions prescribe.
fn expected_dosage(cm: &[f64], step: &ImputeStep) -> f64 {
    let rec_1 = (cm[step.locus] - cm[step.prev]) / 100.0;
    let rec_2 = (cm[step.next] - cm[step.locus]) / 100.0;
    let rec_0 = (cm[step.next] - cm[step.prev]) / 100.0;

    let f1 = (1.0 - f64::exp(-2.0 * rec_1)) / 2.0;
    let f2 = (1.0 - f64::exp(-2.0 * rec_2)) / 2.0;
    let f0 = (1.0 - f64::exp(-2.0 * rec_0)) / 2.0;

    let r_0 = (1.0 - f1) * (1.0 - f2) / (1.0 - f0);
    let r_1 = f1 * (1.0 - f2) / f0;

    match (step.prev_geno, step.next_geno) {
        (Genotype::Mat, Genotype::Mat) => 1.0 - 2.0 * r_0,
        (Genotype::Het, Genotype::Mat) => 1.0 - r_0 - r_1,
        (Genotype::Pat, Genotype::Mat) => 1.0 - 2.0 * r_1,
        (Genotype::Mat, Genotype::Het) => r_1 - r_0,
        (Genotype::Het, Genotype::Het) => 0.0,
        (Genotype::Pat, Genotype::Het) => r_0 - r_1,
        (Genotype::Mat, Genotype::Pat) => 2.0 * r_1 - 1.0,
        (Genotype::Het, Genotype::Pat) => r_0 + r_1 - 1.0,
        (Genotype::Pat, Genotype::Pat) => 2.0 * r_0 - 1.0,
        _ => panic!("Genotype was unknown when it shouldn't be!"),
    }
}

#[test]
fn it_can_estimate_unknown_genotypes() {
    let mut d = unk_dataset();
    let plans = d.estimate_unknown();
    let cm: Vec<f64> = d.genome.chromosomes[0]
        .loci
        .iter()
        .map(|l| l.marker.centi_morgan.parse::<f64>().unwrap())
        .collect();

    let expected: Vec<((usize, usize), f64)> = vec![
        ((1, 0), -0.18523506128077272),
        ((2, 0), 0.18906668494617707),
        ((3, 0), 0.5826065314914579),
        ((2, 1), 0.3421367343627405),
        ((3, 1), -0.3223330030526561),
        ((1, 2), 0.9616255554798838),
        ((3, 2), 0.3223330030526552),
        ((4, 2), -0.34213673436274084),
    ];

    assert_eq!(plans[0].len(), expected.len());
    for step in plans[0].iter() {
        let value = expected_dosage(&cm, step);
        let want = expected
            .iter()
            .find(|((l, s), _)| *l == step.locus && *s == step.strain)
            .map(|(_, v)| *v)
            .expect("a step for an entry the reference does not fill");
        // the reference literals carry the rounding of the libm `exp` they
        // were generated with; match them to well below any dosage scale
        assert!((value - want).abs() <= 1e-14, "locus {} strain {}: {} vs {}",
            step.locus, step.strain, value, want);
    }
}
