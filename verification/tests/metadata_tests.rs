use qtlreaper::{Genotype, Metadata, MetadataError};

#[test]
fn it_can_parse_metadata_lines() {
    let lines = vec![
        "#@type:intercross",
        "@name:BXD",
        "#abbreviation of maternal or paternal parents",
        "@mat:B6",
    ];

    assert_eq!(Metadata::parse_line(lines[0]).unwrap(), None);
    assert_eq!(Metadata::parse_line(lines[1]).unwrap(), Some(("name", "BXD")));
    assert_eq!(Metadata::parse_line(lines[2]).unwrap(), None);
    assert_eq!(Metadata::parse_line(lines[3]).unwrap(), Some(("mat", "B6")));
}

#[test]
fn it_can_parse_metadata() {
    let lines = vec![
        "#comment line always start with a '#'",
        "#type riset or intercross",
        "@type:riset",
        "@name:BXD",
        "#abbreviation of maternal or paternal parents",
        "@mat:B6",
        "@pat:D",
        "#heterozygous , optional, default is \"H\"",
        "@het:H",
        "#Unknown , optional, default is \"U\"",
        "@unk:U",
        "Chr	Locus	cM	BXD1	BXD2	BXD5	BXD6	BXD8	BXD9	BXD11	BXD12	BXD13	BXD14	BXD15	BXD16	BXD18	BXD19	BXD20	BXD21	BXD22	BXD23	BXD24	BXD25	BXD27	BXD28	BXD29	BXD30	BXD31	BXD32	BXD33	BXD34	BXD35	BXD36	BXD37	BXD38	BXD39	BXD40	BXD42",
    ];

    assert_eq!(
        Metadata::from_lines(lines),
        Ok(Metadata {
            name: String::from("BXD"),
            maternal: String::from("B6"),
            paternal: String::from("D"),
            dataset_type: String::from("riset"),
            heterozygous: String::from("H"),
            unknown: String::from("U"),
        })
    );
}

#[test]
fn from_lines_defaults_het_and_unk() {
    let lines = vec!["@type:intercross", "@name:X", "@mat:A", "@pat:B"];
    let m = Metadata::from_lines(lines).unwrap();
    assert_eq!(m.heterozygous, "H");
    assert_eq!(m.unknown, "U");
    assert_eq!(m.dataset_type, "intercross");
}

#[test]
fn from_lines_reports_missing_required() {
    let lines = vec!["@name:X", "@mat:A", "@pat:B"];
    assert_eq!(Metadata::from_lines(lines), Err(MetadataError::MissingRequired));
}

#[test]
fn from_lines_reports_malformed_directive() {
    let lines = vec!["@name:X", "@matA"];
    assert_eq!(Metadata::from_lines(lines), Err(MetadataError::MalformedDirective));
}

#[test]
fn from_lines_last_directive_wins() {
    let lines = vec!["@type:riset", "@name:X", "@mat:A", "@pat:B", "@name:Y"];
    let m = Metadata::from_lines(lines).unwrap();
    assert_eq!(m.name, "Y");
}

fn bxd_metadata() -> Metadata {
    Metadata {
        name: String::from("BXD"),
        maternal: String::from("B6"),
        paternal: String::from("D"),
        dataset_type: String::from("riset"),
        heterozygous: String::from("H"),
        unknown: String::from("U"),
    }
}

#[test]
fn parse_genotype_maps_symbols_to_codes() {
    let m = bxd_metadata();
    assert_eq!(m.parse_genotype("B6"), Ok((Genotype::Mat, -1)));
    assert_eq!(m.parse_genotype("D"), Ok((Genotype::Pat, 1)));
    assert_eq!(m.parse_genotype("H"), Ok((Genotype::Het, 0)));
    assert_eq!(m.parse_genotype("U"), Ok((Genotype::Unk, 99)));
    assert_eq!(m.parse_genotype("Z"), Err(MetadataError::UnrecognizedGenotype));
}

#[test]
fn parse_dominance_maps_symbols_to_codes() {
    let m = bxd_metadata();
    assert_eq!(m.parse_dominance("B6"), Ok(0));
    assert_eq!(m.parse_dominance("D"), Ok(0));
    assert_eq!(m.parse_dominance("H"), Ok(1));
    assert_eq!(m.parse_dominance("U"), Ok(1));
    assert_eq!(m.parse_dominance("Z"), Err(MetadataError::UnrecognizedGenotype));
}

#[test]
fn genotype_codes_are_exact() {
    assert_eq!(Genotype::Mat.dosage_code(), -1);
    assert_eq!(Genotype::Pat.dosage_code(), 1);
    assert_eq!(Genotype::Het.dosage_code(), 0);
    assert_eq!(Genotype::Unk.dosage_code(), qtlreaper::UNKNOWN_SENTINEL);
    assert_eq!(Genotype::Mat.dominance_code(), 0);
    assert_eq!(Genotype::Pat.dominance_code(), 0);
    assert_eq!(Genotype::Het.dominance_code(), 1);
    assert_eq!(Genotype::Unk.dominance_code(), 1);
}
