use sandpiles::grid::Grid;
use sandpiles::patterns::{catalog_from, definitions, parse_pattern, patterns, Catalog};
use sandpiles::rendered::RenderedGrid;
use sandpiles::runs::{combine, double, load, run};
use sandpiles::{Cell, GridError};

fn plus() -> Vec<Cell> {
    vec![(0, 1), (0, -1), (1, 0), (-1, 0)]
}

fn sorted_cells(g: &Grid) -> Vec<(Cell, u32)> {
    let mut v = g.cells();
    v.sort();
    v
}

fn nonzero_cells(g: &Grid) -> Vec<(Cell, u32)> {
    sorted_cells(g).into_iter().filter(|(_, s)| *s != 0).collect()
}

fn total(g: &Grid) -> u64 {
    g.cells().iter().map(|(_, s)| *s as u64).sum()
}

#[test]
fn scenario_one_firing() {
    let mut g = Grid::seed(2, "plus".to_string(), plus()).unwrap();
    assert_eq!(total(&g), 4);
    let n = g.topple().unwrap();
    assert_eq!(n, 1);
    assert_eq!(
        nonzero_cells(&g),
        vec![((-1, 0), 1), ((0, -1), 1), ((0, 1), 1), ((1, 0), 1)]
    );
    assert_eq!(g.get((0, 0)), 0);
    assert_eq!(g.max_dim(), Ok(1));
    assert_eq!(total(&g), 4);
}

#[test]
fn scenario_below_threshold() {
    let mut g = Grid::seed(0, "plus".to_string(), plus()).unwrap();
    let n = g.topple().unwrap();
    assert_eq!(n, 0);
    assert_eq!(sorted_cells(&g), vec![((0, 0), 1)]);
    assert_eq!(g.max_dim(), Ok(0));
}

#[test]
fn threshold_boundary_three_grains() {
    let mut g = Grid::seed(1, "plus".to_string(), vec![(0, 1), (0, -1), (1, 0)]).unwrap();
    assert!(g.is_stable());
    assert_eq!(g.topple(), Ok(0));
    assert_eq!(sorted_cells(&g), vec![((0, 0), 2)]);
}

#[test]
fn conservation_large_seed() {
    let catalog = patterns().unwrap();
    for name in ["o", "+", "ivy", "X++"] {
        let (g, _) = run(&catalog, name, 10).unwrap();
        assert_eq!(total(&g), 1024);
        assert!(g.is_stable());
        let k = g.topple_cells().len() as u32;
        assert!(g.cells().iter().all(|(_, s)| *s < k));
    }
}

#[test]
fn idempotence_of_settled_grid() {
    let catalog = patterns().unwrap();
    let (mut g, n) = run(&catalog, "o+", 9).unwrap();
    assert!(n > 0);
    let before = sorted_cells(&g);
    assert_eq!(g.topple(), Ok(0));
    assert_eq!(sorted_cells(&g), before);
}

#[test]
fn determinism_of_repeated_runs() {
    let catalog = patterns().unwrap();
    let (a, na) = run(&catalog, "oo", 11).unwrap();
    let (b, nb) = run(&catalog, "oo", 11).unwrap();
    assert_eq!(na, nb);
    assert_eq!(sorted_cells(&a), sorted_cells(&b));
}

#[test]
fn symmetry_of_plus_pattern() {
    let mut g = Grid::seed(9, "plus".to_string(), plus()).unwrap();
    g.topple().unwrap();
    let d = g.max_dim().unwrap() as i16;
    for r in -d..=d {
        for c in -d..=d {
            let v = g.get((r, c));
            assert_eq!(v, g.get((c, r)));
            assert_eq!(v, g.get((-r, -c)));
        }
    }
}

#[test]
fn scenario_combine_settles_alike() {
    let mut a = Grid::seed(5, "plus".to_string(), plus()).unwrap();
    let mut b = Grid::seed(6, "plus".to_string(), plus()).unwrap();
    let raw = Grid::seed(5, "plus".to_string(), plus())
        .unwrap()
        .combine(&Grid::seed(6, "plus".to_string(), plus()).unwrap())
        .unwrap();
    a.topple().unwrap();
    b.topple().unwrap();
    let mut settled_first = a.combine(&b).unwrap();
    assert_eq!(total(&settled_first), 32 + 64);
    settled_first.topple().unwrap();
    let mut summed_first = raw;
    assert_eq!(summed_first.get((0, 0)), 96);
    summed_first.topple().unwrap();
    assert_eq!(total(&settled_first), 96);
    assert_eq!(nonzero_cells(&settled_first), nonzero_cells(&summed_first));
}

#[test]
fn double_doubles_grains() {
    let g = Grid::seed(3, "plus".to_string(), plus()).unwrap();
    let d = g.double().unwrap();
    assert_eq!(d.power(), 4);
    assert_eq!(d.get((0, 0)), 16);
    assert_eq!(d.pattern(), "plus");
}

#[test]
fn overflow_of_seed() {
    assert_eq!(
        Grid::seed(32, "plus".to_string(), plus()).err(),
        Some(GridError::Overflow)
    );
    let g = Grid::seed(31, "plus".to_string(), plus()).unwrap();
    assert_eq!(g.get((0, 0)), 1u32 << 31);
    assert_eq!(g.double().err(), Some(GridError::Overflow));
}

#[test]
fn overflow_of_combination() {
    let a = Grid::seed(31, "plus".to_string(), plus()).unwrap();
    let b = Grid::seed(31, "plus".to_string(), plus()).unwrap();
    assert_eq!(a.combine(&b).err(), Some(GridError::Overflow));
}

#[test]
fn overflow_of_coordinates() {
    let mut g = Grid::seed(1, "far".to_string(), vec![(i16::MAX, 0)]).unwrap();
    assert_eq!(g.topple(), Err(GridError::Overflow));
}

#[test]
fn advance_stops_at_budget() {
    let mut g = Grid::seed(8, "plus".to_string(), plus()).unwrap();
    assert_eq!(g.advance(3), Ok(3));
    assert_eq!(total(&g), 256);
    assert!(!g.is_stable());
    let rest = g.topple().unwrap();
    let mut h = Grid::seed(8, "plus".to_string(), plus()).unwrap();
    assert_eq!(h.topple(), Ok(rest + 3));
    assert_eq!(sorted_cells(&g), sorted_cells(&h));
}

#[test]
fn empty_grid_has_no_bounds() {
    let g = Grid::new(0, "plus".to_string(), plus());
    assert_eq!(g.max_dim(), Err(GridError::EmptyGrid));
    assert_eq!(RenderedGrid::from_grid(&g).err(), Some(GridError::EmptyGrid));
    assert_eq!(g.cell_max(), 0);
}

#[test]
fn rendered_square_orientation() {
    let mut g = Grid::seed(2, "plus".to_string(), plus()).unwrap();
    g.topple().unwrap();
    let r = RenderedGrid::from_grid(&g).unwrap();
    assert_eq!(r.grid, vec![vec![0, 1, 0], vec![1, 0, 1], vec![0, 1, 0]]);
    assert_eq!(r.power, 2);
    assert_eq!(r.pattern, "plus");

    let dense = vec![vec![0, 0, 7], vec![0, 1, 0], vec![2, 0, 0]];
    let h = Grid::from_dense(5, "x".to_string(), plus(), &dense).unwrap();
    assert_eq!(h.get((-1, 1)), 7);
    assert_eq!(h.get((1, -1)), 2);
    assert_eq!(h.get((0, 0)), 1);
    assert_eq!(h.cells().len(), 9);
    let back = RenderedGrid::from_grid(&h).unwrap();
    assert_eq!(back.grid, dense);
}

#[test]
fn rendered_counts_keep_low_byte() {
    let g = Grid::seed(9, "plus".to_string(), plus()).unwrap();
    let r = RenderedGrid::from_grid(&g).unwrap();
    assert_eq!(r.grid, vec![vec![0]]);
    let g = Grid::seed(3, "plus".to_string(), plus()).unwrap();
    let r = RenderedGrid::from_grid(&g).unwrap();
    assert_eq!(r.grid, vec![vec![8]]);
}

#[test]
fn dense_input_must_be_square() {
    let ragged = vec![vec![0, 1], vec![1]];
    assert_eq!(
        Grid::from_dense(0, "+".to_string(), plus(), &ragged).err(),
        Some(GridError::Codec)
    );
    assert_eq!(
        Grid::from_dense(0, "+".to_string(), plus(), &Vec::new()).err(),
        Some(GridError::Codec)
    );
    let even = vec![vec![1, 2], vec![3, 4]];
    let g = Grid::from_dense(0, "+".to_string(), plus(), &even).unwrap();
    assert_eq!(g.get((0, 0)), 1);
    assert_eq!(g.get((1, 1)), 4);
}

#[test]
fn catalog_holds_named_patterns() {
    let catalog = patterns().unwrap();
    assert_eq!(catalog.len(), 29);
    assert_eq!(catalog.lookup("+").unwrap(), vec![(1, 0), (0, 1), (0, -1), (-1, 0)]);
    assert_eq!(catalog.lookup("x").unwrap(), vec![(1, 1), (1, -1), (-1, 1), (-1, -1)]);
    let ivy = catalog.lookup("ivy").unwrap();
    assert_eq!(ivy.len(), 14);
    assert_eq!(ivy.iter().filter(|c| **c == (0, 0)).count(), 2);
    assert_eq!(ivy.iter().filter(|c| **c == (1, 0)).count(), 2);
    assert_eq!(catalog.lookup("X++").unwrap().len(), 20);
}

#[test]
fn catalog_names_are_sorted() {
    let catalog = patterns().unwrap();
    let names = catalog.names();
    assert_eq!(names.len(), 29);
    let mut expected = names.clone();
    expected.sort();
    assert_eq!(names, expected);
    assert_eq!(names[0], "+");
    assert!(names.contains(&"sh".to_string()));
}

#[test]
fn unknown_pattern_is_named() {
    let catalog = patterns().unwrap();
    assert_eq!(
        catalog.lookup("nope").err(),
        Some(GridError::UnknownPattern("nope".to_string()))
    );
    assert_eq!(
        run(&catalog, "nope", 3).err(),
        Some(GridError::UnknownPattern("nope".to_string()))
    );
}

#[test]
fn malformed_definitions_are_refused() {
    assert_eq!(parse_pattern(&vec![".1.", "1x1", ".1."]), None);
    assert_eq!(parse_pattern(&vec!["...", "...", "..."]), None);
    assert_eq!(parse_pattern(&vec!["3"]), Some(vec![(0, 0), (0, 0), (0, 0)]));
    let mut c = Catalog::new();
    assert_eq!(c.add("a", &vec![".1.", "1.1", ".1."]), Ok(()));
    assert_eq!(
        c.add("a", &vec!["1"]),
        Err(GridError::BadPattern("a".to_string()))
    );
    assert_eq!(
        c.add("b", &vec!["z"]),
        Err(GridError::BadPattern("b".to_string()))
    );
    assert_eq!(c.len(), 1);
}

#[test]
fn run_double_combine_through_snapshots() {
    let catalog = patterns().unwrap();
    let (g, _) = run(&catalog, "+", 6).unwrap();
    let snap = RenderedGrid::from_grid(&g).unwrap();
    let back = load(&snap, &catalog).unwrap();
    assert_eq!(total(&back), 64);
    let (d, _) = double(&snap, &catalog).unwrap();
    assert_eq!(d.power(), 7);
    assert_eq!(total(&d), 128);
    let (c, _) = combine(&snap, &snap, &catalog).unwrap();
    assert_eq!(c.power(), 6);
    assert_eq!(total(&c), 128);
    assert_eq!(nonzero_cells(&c), nonzero_cells(&d));
    let bad = RenderedGrid { pattern: "??".to_string(), power: 1, grid: vec![vec![1]] };
    assert_eq!(
        load(&bad, &catalog).err(),
        Some(GridError::UnknownPattern("??".to_string()))
    );
}

#[test]
fn catalog_from_definitions() {
    let defs = vec![("b", vec!["1.1"]), ("a", vec!["2"])];
    let c = catalog_from(&defs).unwrap();
    assert_eq!(c.len(), 2);
    assert_eq!(c.lookup("b").unwrap(), vec![(1, 1), (1, -1)]);
    assert_eq!(c.lookup("a").unwrap(), vec![(0, 0), (0, 0)]);
    assert_eq!(c.names(), vec!["a".to_string(), "b".to_string()]);
    let repeated = vec![("a", vec!["1"]), ("a", vec!["1"])];
    assert_eq!(
        catalog_from(&repeated).err(),
        Some(GridError::BadPattern("a".to_string()))
    );
    let broken = vec![("a", vec!["1"]), ("c", vec!["1?1"])];
    assert_eq!(
        catalog_from(&broken).err(),
        Some(GridError::BadPattern("c".to_string()))
    );
    assert_eq!(definitions().len(), 29);
}

#[test]
fn determinism_across_worker_counts() {
    let catalog = patterns().unwrap();
    let one = rayon::ThreadPoolBuilder::new().num_threads(1).build().unwrap();
    let many = rayon::ThreadPoolBuilder::new().num_threads(4).build().unwrap();
    let (a, na) = one.install(|| run(&catalog, "xO", 10)).unwrap();
    let (b, nb) = many.install(|| run(&catalog, "xO", 10)).unwrap();
    assert_eq!(na, nb);
    assert_eq!(sorted_cells(&a), sorted_cells(&b));
}

#[test]
fn builtin_pattern_displacements() {
    let catalog = patterns().unwrap();
    assert_eq!(
        catalog.lookup("o").unwrap(),
        vec![(1, 1), (1, 0), (1, -1), (0, 1), (0, -1), (-1, 1), (-1, 0), (-1, -1)]
    );
    assert_eq!(
        catalog.lookup("++").unwrap(),
        vec![(2, 0), (1, 0), (0, 2), (0, 1), (0, -1), (0, -2), (-1, 0), (-2, 0)]
    );
    for (name, len) in [
        ("+", 4), ("x", 4), ("o", 8), ("++", 8), ("o+", 12), ("ox", 12), ("O", 16),
        ("X++", 20), ("oo", 28),
    ] {
        assert_eq!(catalog.lookup(name).unwrap().len(), len);
    }
    for name in catalog.names() {
        let offs = catalog.lookup(&name).unwrap();
        assert!(1 <= offs.len() && offs.len() <= 28);
        assert!(offs.iter().all(|(r, c)| r.abs() <= 3 && c.abs() <= 3));
        let mut plain = offs.clone();
        plain.sort();
        let mut flipped: Vec<Cell> = offs.iter().map(|(r, c)| (-r, *c)).collect();
        flipped.sort();
        assert_eq!(plain, flipped);
        let mut mirrored: Vec<Cell> = offs.iter().map(|(r, c)| (*r, -c)).collect();
        mirrored.sort();
        assert_eq!(plain, mirrored);
        let centre = offs.iter().filter(|c| **c == (0, 0)).count();
        assert_eq!(centre, if name == "ivy" { 2 } else { 0 });
    }
}

#[test]
fn builtin_plus_runs_as_scenarios() {
    let catalog = patterns().unwrap();
    let (g, n) = run(&catalog, "+", 2).unwrap();
    assert_eq!(n, 1);
    let r = RenderedGrid::from_grid(&g).unwrap();
    assert_eq!(r.grid, vec![vec![0, 1, 0], vec![1, 0, 1], vec![0, 1, 0]]);
    assert_eq!((r.pattern.as_str(), r.power), ("+", 2));
    let sum: u32 = r.grid.iter().flatten().map(|v| *v as u32).sum();
    assert_eq!(sum, 4);
    let (g, n) = run(&catalog, "+", 0).unwrap();
    assert_eq!(n, 0);
    let r = RenderedGrid::from_grid(&g).unwrap();
    assert_eq!(r.grid, vec![vec![1]]);
}

#[test]
fn quarter_turn_symmetry() {
    let catalog = patterns().unwrap();
    let (g, _) = run(&catalog, "o+", 9).unwrap();
    let d = g.max_dim().unwrap() as i16;
    for r in -d..=d {
        for c in -d..=d {
            assert_eq!(g.get((r, c)), g.get((-c, r)));
        }
    }
}

#[test]
fn errors_name_the_first_bad_snapshot() {
    let catalog = patterns().unwrap();
    let good = RenderedGrid { pattern: "+".to_string(), power: 1, grid: vec![vec![2]] };
    let unknown = RenderedGrid { pattern: "zz".to_string(), power: 1, grid: vec![vec![2]] };
    let ragged = RenderedGrid { pattern: "+".to_string(), power: 1, grid: vec![vec![2, 1]] };
    assert_eq!(
        combine(&unknown, &ragged, &catalog).err(),
        Some(GridError::UnknownPattern("zz".to_string()))
    );
    assert_eq!(combine(&ragged, &unknown, &catalog).err(), Some(GridError::Codec));
    assert_eq!(
        combine(&good, &unknown, &catalog).err(),
        Some(GridError::UnknownPattern("zz".to_string()))
    );
    assert_eq!(combine(&good, &ragged, &catalog).err(), Some(GridError::Codec));
    assert_eq!(
        double(&unknown, &catalog).err(),
        Some(GridError::UnknownPattern("zz".to_string()))
    );
    assert_eq!(double(&ragged, &catalog).err(), Some(GridError::Codec));
}

#[test]
fn failing_runs_stop_alike() {
    let mut a = Grid::seed(2, "drift".to_string(), vec![(0, 16000), (0, 16000)]).unwrap();
    let mut b = Grid::seed(2, "drift".to_string(), vec![(0, 16000), (0, 16000)]).unwrap();
    assert_eq!(a.topple(), Err(GridError::Overflow));
    assert_eq!(b.topple(), Err(GridError::Overflow));
    assert_eq!(sorted_cells(&a), sorted_cells(&b));
    assert_eq!(
        sorted_cells(&a),
        vec![((0, 0), 0), ((0, 16000), 0), ((0, 32000), 4)]
    );
}
