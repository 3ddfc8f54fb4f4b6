//! Verified string helpers used by the parsing layer: character search,
//! equality, and tab-splitting with the semantics of `str::split_terminator`.

use vstd::prelude::*;

verus! {

/// Position `i` holds the first occurrence of `sep` in `s` at or after `from`.
pub open spec fn first_occurrence_from(s: Seq<char>, sep: char, from: int, i: int) -> bool {
    &&& from <= i < s.len()
    &&& s[i] == sep
    &&& forall|j: int| from <= j < i ==> s[j] != sep
}

/// Position `i` holds the first occurrence of `sep` in `s`.
pub open spec fn first_occurrence(s: Seq<char>, sep: char, i: int) -> bool {
    first_occurrence_from(s, sep, 0, i)
}

pub proof fn lemma_first_occurrence_from_unique(
    s: Seq<char>,
    sep: char,
    from: int,
    i: int,
    j: int,
)
    requires
        first_occurrence_from(s, sep, from, i),
        first_occurrence_from(s, sep, from, j),
    ensures
        i == j,
{
    if i < j {
        assert(s[i] != sep);
    }
    if j < i {
        assert(s[j] != sep);
    }
}

/// The pieces of `s` cut at every occurrence of `sep`: the behaviour of
/// `str::split`.
pub open spec fn spec_split(s: Seq<char>, sep: char) -> Seq<Seq<char>>
    decreases s.len(),
{
    if exists|i: int| first_occurrence(s, sep, i) {
        let i = choose|i: int| first_occurrence(s, sep, i);
        seq![s.subrange(0, i)] + spec_split(s.subrange(i + 1, s.len() as int), sep)
    } else {
        seq![s]
    }
}

/// The pieces of `s` cut at `sep`, with one trailing separator treated as a
/// terminator: the behaviour of `str::split_terminator`.
pub open spec fn spec_split_terminator(s: Seq<char>, sep: char) -> Seq<Seq<char>> {
    if s.len() == 0 {
        Seq::empty()
    } else if s.last() == sep {
        spec_split(s.drop_last(), sep)
    } else {
        spec_split(s, sep)
    }
}

/// Index of the first occurrence of `sep` in `s` at or after `from`, if any.
pub fn find_from(s: &str, sep: char, from: usize) -> (r: Option<usize>)
    requires
        from as int <= s@.len(),
    ensures
        match r {
            Some(i) => first_occurrence_from(s@, sep, from as int, i as int),
            None => forall|j: int| from <= j < s@.len() ==> s@[j] != sep,
        },
{
    let n = s.unicode_len();
    let mut i: usize = from;
    while i < n
        invariant
            from <= i <= n,
            n == s@.len(),
            forall|j: int| from <= j < i ==> s@[j] != sep,
        decreases n - i,
    {
        if s.get_char(i) == sep {
            return Some(i);
        }
        i = i + 1;
    }
    None
}

/// Character-by-character string equality, decided against the views.
pub fn str_eq(a: &str, b: &str) -> (r: bool)
    ensures
        r == (a@ == b@),
{
    let na = a.unicode_len();
    let nb = b.unicode_len();
    if na != nb {
        proof {
            assert(a@.len() != b@.len());
        }
        return false;
    }
    let mut i: usize = 0;
    while i < na
        invariant
            i <= na,
            na == a@.len(),
            nb == b@.len(),
            na == nb,
            forall|j: int| 0 <= j < i ==> a@[j] == b@[j],
        decreases na - i,
    {
        if s_neq(a.get_char(i), b.get_char(i)) {
            proof {
                assert(a@[i as int] != b@[i as int]);
            }
            return false;
        }
        i = i + 1;
    }
    proof {
        assert(a@ =~= b@);
    }
    true
}

/// True when `s` begins with `prefix`, decided against the views.
pub fn str_starts_with(s: &str, prefix: &str) -> (r: bool)
    ensures
        r == (prefix@.len() <= s@.len() && s@.subrange(0, prefix@.len() as int) == prefix@),
{
    let n = s.unicode_len();
    let np = prefix.unicode_len();
    if np > n {
        proof {
            assert(!(prefix@.len() <= s@.len()));
        }
        return false;
    }
    let head = s.substring_char(0, np);
    let r = str_eq(head, prefix);
    proof {
        if r {
            assert(s@.subrange(0, prefix@.len() as int) == prefix@);
        }
    }
    r
}

/// Character inequality.
fn s_neq(a: char, b: char) -> (r: bool)
    ensures
        r == (a != b),
{
    a != b
}

/// Splits `s` at every occurrence of `sep`, as `str::split` does.
pub fn split_char(s: &str, sep: char) -> (r: Vec<String>)
    ensures
        r.deep_view() == spec_split(s@, sep),
        r.len() >= 1,
    decreases s@.len(),
{
    let n = s.unicode_len();
    match find_from(s, sep, 0) {
        None => {
            let mut v: Vec<String> = Vec::new();
            v.push(String::from_str(s));
            proof {
                assert(!exists|i: int| first_occurrence(s@, sep, i));
                assert(v.deep_view() =~= spec_split(s@, sep));
            }
            v
        },
        Some(i) => {
            let head = s.substring_char(0, i);
            let tail = s.substring_char(i + 1, n);
            let mut rest = split_char(tail, sep);
            rest.insert(0, String::from_str(head));
            proof {
                assert(first_occurrence(s@, sep, i as int));
                let ci = choose|k: int| first_occurrence(s@, sep, k);
                lemma_first_occurrence_from_unique(s@, sep, 0, i as int, ci);
                assert(spec_split(s@, sep) == seq![s@.subrange(0, ci)] + spec_split(
                    s@.subrange(ci + 1, s@.len() as int),
                    sep,
                ));
                assert(tail@ == s@.subrange(ci + 1, s@.len() as int));
                assert(rest.deep_view() =~= spec_split(s@, sep));
            }
            rest
        },
    }
}

/// Splits `s` at `sep` dropping one trailing terminator, as
/// `str::split_terminator` does.
pub fn split_terminator_char(s: &str, sep: char) -> (r: Vec<String>)
    ensures
        r.deep_view() == spec_split_terminator(s@, sep),
{
    let n = s.unicode_len();
    if n == 0 {
        let v: Vec<String> = Vec::new();
        proof {
            assert(v.deep_view() =~= spec_split_terminator(s@, sep));
        }
        v
    } else if s.get_char(n - 1) == sep {
        let body = s.substring_char(0, n - 1);
        let r = split_char(body, sep);
        proof {
            assert(body@ =~= s@.drop_last());
        }
        r
    } else {
        split_char(s, sep)
    }
}

} // verus!
