use qtlreaper::Genotype::{Het, Mat, Pat, Unk};
use qtlreaper::{Genotype, Locus, ScanState};

fn unk_grid() -> Vec<Vec<Genotype>> {
    vec![
        vec![Mat, Mat, Pat],
        vec![Unk, Pat, Unk],
        vec![Unk, Unk, Pat],
        vec![Unk, Unk, Unk],
        vec![Pat, Mat, Unk],
        vec![Pat, Mat, Mat],
    ]
}

#[test]
fn it_can_find_unknown_intervals_in_many_strains() {
    let genos = unk_grid();

    let strains = 3;
    let mut state = ScanState {
        open: vec![None; strains],
        closed: vec![Vec::new(); strains],
    };

    for (geno_ix, genos_line) in genos.iter().enumerate() {
        Locus::step_many_unknown_intervals_mut(&mut state, geno_ix, genos_line);
    }

    assert_eq!(state.closed, vec![vec![(1, 4)], vec![(2, 4)], vec![(1, 2), (3, 5)]]);
}

#[test]
fn a_trailing_open_run_is_not_reported() {
    let rows = vec![vec![Mat], vec![Unk], vec![Unk]];
    let mut state = ScanState { open: vec![None], closed: vec![Vec::new()] };
    for (ix, row) in rows.iter().enumerate() {
        Locus::step_many_unknown_intervals_mut(&mut state, ix, row);
    }
    assert_eq!(state.closed, vec![Vec::<(usize, usize)>::new()]);
    assert_eq!(state.open, vec![Some(1)]);
}

#[test]
fn a_run_closes_at_the_first_known_genotype() {
    let rows = vec![vec![Het], vec![Unk], vec![Het], vec![Unk], vec![Unk], vec![Het]];
    let mut state = ScanState { open: vec![None], closed: vec![Vec::new()] };
    for (ix, row) in rows.iter().enumerate() {
        Locus::step_many_unknown_intervals_mut(&mut state, ix, row);
    }
    assert_eq!(state.closed, vec![vec![(1, 2), (3, 5)]]);
    assert_eq!(state.open, vec![None]);
}

#[test]
fn a_column_with_no_unknowns_yields_no_runs() {
    let rows = vec![vec![Mat, Het], vec![Pat, Het], vec![Mat, Pat]];
    let mut state = ScanState {
        open: vec![None; 2],
        closed: vec![Vec::new(); 2],
    };
    for (ix, row) in rows.iter().enumerate() {
        Locus::step_many_unknown_intervals_mut(&mut state, ix, row);
    }
    assert_eq!(state.closed, vec![Vec::new(), Vec::new()]);
    assert_eq!(state.open, vec![None, None]);
}
