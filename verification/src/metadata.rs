//! Dataset metadata: the `@key:value` directive lines that precede the
//! genotype table, and the genotype-symbol translation they configure.
//!
//! A directive line starts with `@` and carries `key:value`; a line starting
//! with `#` is a comment; any other line is ignored. The required keys are
//! `name`, `mat`, `pat` and `type`; `het` and `unk` default to `"H"` and
//! `"U"`. When a key repeats, the last occurrence wins.

use vstd::prelude::*;

use crate::genotype::Genotype;
use crate::strutil::{find_from, first_occurrence, str_eq};

verus! {

/// Parsed dataset metadata.
#[derive(Debug, PartialEq, Eq, Clone)]
pub struct Metadata {
    pub name: String,
    pub maternal: String,
    pub paternal: String,
    /// `"intercross"` or `"riset"`.
    pub dataset_type: String,
    pub heterozygous: String,
    pub unknown: String,
}

/// Failures of the metadata layer.
#[derive(Debug, PartialEq, Eq, Structural, Clone, Copy)]
pub enum MetadataError {
    /// A `@` line without a `:` separator.
    MalformedDirective,
    /// One of `name`, `mat`, `pat`, `type` never appeared.
    MissingRequired,
    /// A genotype symbol that matches none of the configured symbols.
    UnrecognizedGenotype,
}

/// The key/value pair a directive line carries, if it carries one.
pub open spec fn line_kv(line: Seq<char>) -> Option<(Seq<char>, Seq<char>)> {
    if line.len() > 0 && line[0] == '@' && (exists|i: int| first_occurrence(line, ':', i)) {
        let i = choose|i: int| first_occurrence(line, ':', i);
        Some((line.subrange(1, i), line.subrange(i + 1, line.len() as int)))
    } else {
        None
    }
}

/// A `@` line with no `:` separator, which the parser rejects.
pub open spec fn line_malformed(line: Seq<char>) -> bool {
    line.len() > 0 && line[0] == '@' && !(exists|i: int| first_occurrence(line, ':', i))
}

/// The value of the last directive for `key` among `lines`, if any.
pub open spec fn last_directive(lines: Seq<Seq<char>>, key: Seq<char>) -> Option<Seq<char>>
    decreases lines.len(),
{
    if lines.len() == 0 {
        None
    } else if line_kv(lines.last()) is Some && (line_kv(lines.last())->0).0 == key {
        Some((line_kv(lines.last())->0).1)
    } else {
        last_directive(lines.drop_last(), key)
    }
}

/// Some line among `lines` is a malformed directive.
pub open spec fn has_malformed(lines: Seq<Seq<char>>) -> bool {
    exists|j: int| 0 <= j < lines.len() && line_malformed(lines[j])
}

/// All four required directives are present among `lines`.
pub open spec fn required_present(lines: Seq<Seq<char>>) -> bool {
    &&& last_directive(lines, "name"@) is Some
    &&& last_directive(lines, "mat"@) is Some
    &&& last_directive(lines, "pat"@) is Some
    &&& last_directive(lines, "type"@) is Some
}

/// The genotype a symbol names under this metadata, with maternal checked
/// first, then paternal, heterozygous and unknown.
pub open spec fn spec_parse_genotype(m: Metadata, g: Seq<char>) -> Option<Genotype> {
    if g == m.maternal@ {
        Some(Genotype::Mat)
    } else if g == m.paternal@ {
        Some(Genotype::Pat)
    } else if g == m.heterozygous@ {
        Some(Genotype::Het)
    } else if g == m.unknown@ {
        Some(Genotype::Unk)
    } else {
        None
    }
}

impl Metadata {
    /// Reads one header line: `Ok(None)` for a comment or data line,
    /// `Ok(Some((key, value)))` for a directive, and an error for a `@` line
    /// with no `:`.
    pub fn parse_line<'a>(line: &'a str) -> (r: Result<
        Option<(&'a str, &'a str)>,
        MetadataError,
    >)
        ensures
            match r {
                Ok(opt) => match opt {
                    Some(kv) => line_kv(line@) == Some((kv.0@, kv.1@)),
                    None => line_kv(line@) is None && !line_malformed(line@),
                },
                Err(e) => e == MetadataError::MalformedDirective && line_malformed(line@),
            },
    {
        let n = line.unicode_len();
        if n == 0 {
            return Ok(None);
        }
        if line.get_char(0) != '@' {
            return Ok(None);
        }
        match find_from(line, ':', 0) {
            None => Err(MetadataError::MalformedDirective),
            Some(sep) => {
                let name = line.substring_char(1, sep);
                let val = line.substring_char(sep + 1, n);
                proof {
                    assert(first_occurrence(line@, ':', sep as int));
                    let ci = choose|i: int| first_occurrence(line@, ':', i);
                    crate::strutil::lemma_first_occurrence_from_unique(
                        line@,
                        ':',
                        0,
                        sep as int,
                        ci,
                    );
                }
                Ok(Some((name, val)))
            },
        }
    }

    /// Collects the metadata from the header lines. The last directive for a
    /// key wins; `het` and `unk` fall back to `"H"` and `"U"`; missing any of
    /// the four required keys, or a malformed directive, is an error.
    pub fn from_lines(lines: Vec<&str>) -> (r: Result<Metadata, MetadataError>)
        ensures
            match r {
                Ok(m) => {
                    &&& !has_malformed(lines.deep_view())
                    &&& required_present(lines.deep_view())
                    &&& m.name@ == last_directive(lines.deep_view(), "name"@)->0
                    &&& m.maternal@ == last_directive(lines.deep_view(), "mat"@)->0
                    &&& m.paternal@ == last_directive(lines.deep_view(), "pat"@)->0
                    &&& m.dataset_type@ == last_directive(lines.deep_view(), "type"@)->0
                    &&& m.heterozygous@ == match last_directive(lines.deep_view(), "het"@) {
                        Some(v) => v,
                        None => "H"@,
                    }
                    &&& m.unknown@ == match last_directive(lines.deep_view(), "unk"@) {
                        Some(v) => v,
                        None => "U"@,
                    }
                },
                Err(MetadataError::MalformedDirective) => has_malformed(lines.deep_view()),
                Err(MetadataError::MissingRequired) => !has_malformed(lines.deep_view())
                    && !required_present(lines.deep_view()),
                Err(_) => false,
            },
    {
        let ghost lv = lines.deep_view();
        let mut name: Option<String> = None;
        let mut mat: Option<String> = None;
        let mut pat: Option<String> = None;
        let mut typ: Option<String> = None;
        let mut het: Option<String> = None;
        let mut unk: Option<String> = None;

        let mut k: usize = 0;
        while k < lines.len()
            invariant
                k <= lines.len(),
                lv == lines.deep_view(),
                lv.len() == lines.len(),
                forall|j: int| 0 <= j < k ==> !line_malformed(lv[j]),
                opt_matches(name, last_directive(lv.take(k as int), "name"@)),
                opt_matches(mat, last_directive(lv.take(k as int), "mat"@)),
                opt_matches(pat, last_directive(lv.take(k as int), "pat"@)),
                opt_matches(typ, last_directive(lv.take(k as int), "type"@)),
                opt_matches(het, last_directive(lv.take(k as int), "het"@)),
                opt_matches(unk, last_directive(lv.take(k as int), "unk"@)),
            decreases lines.len() - k,
        {
            proof {
                assert(lv[k as int] == lines[k as int].deep_view());
            }
            let line: &str = lines[k];
            match Self::parse_line(line) {
                Err(e) => {
                    proof {
                        assert(line_malformed(lv[k as int]));
                    }
                    return Err(MetadataError::MalformedDirective);
                },
                Ok(None) => {},
                Ok(Some((key, val))) => {
                    if str_eq(key, "name") {
                        name = Some(String::from_str(val));
                    } else if str_eq(key, "mat") {
                        mat = Some(String::from_str(val));
                    } else if str_eq(key, "pat") {
                        pat = Some(String::from_str(val));
                    } else if str_eq(key, "type") {
                        typ = Some(String::from_str(val));
                    } else if str_eq(key, "het") {
                        het = Some(String::from_str(val));
                    } else if str_eq(key, "unk") {
                        unk = Some(String::from_str(val));
                    }
                },
            }
            proof {
                reveal_strlit("name");
                reveal_strlit("mat");
                reveal_strlit("pat");
                reveal_strlit("type");
                reveal_strlit("het");
                reveal_strlit("unk");
                assert("name"@.len() == 4 && "type"@.len() == 4);
                assert("mat"@.len() == 3 && "pat"@.len() == 3 && "het"@.len() == 3 && "unk"@.len()
                    == 3);
                assert("name"@[0] == 'n' && "type"@[0] == 't' && "mat"@[0] == 'm' && "pat"@[0]
                    == 'p' && "het"@[0] == 'h' && "unk"@[0] == 'u');
                assert(lv.take(k + 1 as int).drop_last() =~= lv.take(k as int));
                assert(lv.take(k + 1 as int).last() == lv[k as int]);
            }
            k = k + 1;
        }
        proof {
            assert(lv.take(lines.len() as int) =~= lv);
        }
        let name = match name {
            Some(v) => v,
            None => {
                return Err(MetadataError::MissingRequired);
            },
        };
        let mat = match mat {
            Some(v) => v,
            None => {
                return Err(MetadataError::MissingRequired);
            },
        };
        let pat = match pat {
            Some(v) => v,
            None => {
                return Err(MetadataError::MissingRequired);
            },
        };
        let typ = match typ {
            Some(v) => v,
            None => {
                return Err(MetadataError::MissingRequired);
            },
        };
        let het = match het {
            Some(v) => v,
            None => String::from_str("H"),
        };
        let unk = match unk {
            Some(v) => v,
            None => String::from_str("U"),
        };
        Ok(
            Metadata {
                name,
                maternal: mat,
                paternal: pat,
                dataset_type: typ,
                heterozygous: het,
                unknown: unk,
            },
        )
    }

    /// Translates one genotype symbol into its tag and dosage code, checking
    /// the maternal symbol first, then paternal, heterozygous and unknown.
    pub fn parse_genotype(&self, geno: &str) -> (r: Result<(Genotype, i64), MetadataError>)
        ensures
            match r {
                Ok(p) => spec_parse_genotype(*self, geno@) == Some(p.0) && p.1
                    == p.0.spec_dosage_code(),
                Err(e) => e == MetadataError::UnrecognizedGenotype && spec_parse_genotype(
                    *self,
                    geno@,
                ) is None,
            },
    {
        if str_eq(geno, self.maternal.as_str()) {
            Ok((Genotype::Mat, Genotype::Mat.dosage_code()))
        } else if str_eq(geno, self.paternal.as_str()) {
            Ok((Genotype::Pat, Genotype::Pat.dosage_code()))
        } else if str_eq(geno, self.heterozygous.as_str()) {
            Ok((Genotype::Het, Genotype::Het.dosage_code()))
        } else if str_eq(geno, self.unknown.as_str()) {
            Ok((Genotype::Unk, Genotype::Unk.dosage_code()))
        } else {
            Err(MetadataError::UnrecognizedGenotype)
        }
    }

    /// Translates one genotype symbol into its dominance code: `0` for either
    /// homozygote symbol, `1` for the heterozygous or unknown symbol.
    pub fn parse_dominance(&self, geno: &str) -> (r: Result<i64, MetadataError>)
        ensures
            match r {
                Ok(c) => spec_parse_genotype(*self, geno@) is Some && c == spec_parse_genotype(
                    *self,
                    geno@,
                )->0.spec_dominance_code(),
                Err(e) => e == MetadataError::UnrecognizedGenotype && spec_parse_genotype(
                    *self,
                    geno@,
                ) is None,
            },
    {
        match self.parse_genotype(geno) {
            Ok(p) => Ok(p.0.dominance_code()),
            Err(e) => Err(e),
        }
    }

    /// True when the dataset type is `"intercross"`, the cross design that
    /// models a dominance effect.
    pub fn is_intercross(&self) -> (r: bool)
        ensures
            r == (self.dataset_type@ == "intercross"@),
    {
        str_eq(self.dataset_type.as_str(), "intercross")
    }
}

/// The executable option holds exactly the directive value the spec names.
pub open spec fn opt_matches(o: Option<String>, d: Option<Seq<char>>) -> bool {
    match o {
        Some(s) => d == Some(s@),
        None => d is None,
    }
}

} // verus!
