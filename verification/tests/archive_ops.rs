use map_elites_rust::archive::Archive;
use map_elites_rust::utils::clip;

fn bits(x: f64) -> u64 {
    x.to_bits()
}

#[test]
fn clip_inside_below_above() {
    assert_eq!(clip(5, 0, 19), 5);
    assert_eq!(clip(25, 0, 19), 19);
    assert_eq!(clip(1, 2, 5), 2);
    assert_eq!(clip(2, 2, 5), 2);
    assert_eq!(clip(5, 2, 5), 5);
}

#[test]
fn clip_with_crossed_bounds_favors_lower() {
    // max(min(10, 3), 7): the lower bound is applied last.
    assert_eq!(clip(10, 7, 3), 7);
}

#[test]
fn index_for_clamps_to_grid() {
    let a = Archive::new(20, 3);
    assert_eq!(a.index_for(0, 19), (0, 19));
    assert_eq!(a.index_for(19, 0), (19, 0));
    assert_eq!(a.index_for(25, 3), (19, 3));
    assert_eq!(a.index_for(usize::MAX, usize::MAX), (19, 19));
}

#[test]
fn index_for_is_deterministic() {
    let a = Archive::new(20, 3);
    for raw0 in [0usize, 3, 19, 20, 1000] {
        for raw1 in [0usize, 7, 19, 500] {
            assert_eq!(a.index_for(raw0, raw1), a.index_for(raw0, raw1));
        }
    }
}

#[test]
fn index_for_one_cell_grid() {
    let a = Archive::new(1, 2);
    assert_eq!(a.index_for(0, 0), (0, 0));
    assert_eq!(a.index_for(7, 123), (0, 0));
}

#[test]
fn empty_archive_has_no_occupied_cells() {
    let a = Archive::new(4, 2);
    assert_eq!(a.num_occupied(), 0);
    for r in 0..4 {
        for c in 0..4 {
            assert!(!a.is_occupied(r, c));
        }
    }
}

#[test]
fn insert_into_free_cell_stores_triple() {
    let mut a = Archive::new(4, 2);
    a.try_insert(1, 2, vec![bits(0.5), bits(-0.5)], bits(3.0), (bits(0.1), bits(0.2)));
    assert!(a.is_occupied(1, 2));
    assert_eq!(a.num_occupied(), 1);
    assert_eq!(a.occupied_cell(0), (1, 2));
    assert_eq!(a.objective_of(1, 2), bits(3.0));
    assert_eq!(a.solution_of(1, 2), vec![bits(0.5), bits(-0.5)]);
    assert_eq!(a.measure_of(1, 2), (bits(0.1), bits(0.2)));
}

#[test]
fn greater_objective_replaces_incumbent() {
    let mut a = Archive::new(4, 2);
    a.try_insert(0, 0, vec![bits(1.0), bits(1.0)], bits(-2.0), (bits(0.0), bits(0.0)));
    a.try_insert(0, 0, vec![bits(2.0), bits(2.0)], bits(-1.0), (bits(0.5), bits(0.5)));
    assert_eq!(a.num_occupied(), 1);
    assert_eq!(a.objective_of(0, 0), bits(-1.0));
    assert_eq!(a.solution_of(0, 0), vec![bits(2.0), bits(2.0)]);
    assert_eq!(a.measure_of(0, 0), (bits(0.5), bits(0.5)));
}

#[test]
fn equal_objective_is_a_no_op() {
    let mut a = Archive::new(4, 2);
    a.try_insert(2, 2, vec![bits(1.0), bits(1.0)], bits(5.0), (bits(0.1), bits(0.1)));
    a.try_insert(2, 2, vec![bits(9.0), bits(9.0)], bits(5.0), (bits(0.9), bits(0.9)));
    assert_eq!(a.num_occupied(), 1);
    assert_eq!(a.objective_of(2, 2), bits(5.0));
    assert_eq!(a.solution_of(2, 2), vec![bits(1.0), bits(1.0)]);
    assert_eq!(a.measure_of(2, 2), (bits(0.1), bits(0.1)));
}

#[test]
fn smaller_objective_is_a_no_op() {
    let mut a = Archive::new(4, 2);
    a.try_insert(2, 2, vec![bits(1.0), bits(1.0)], bits(5.0), (bits(0.1), bits(0.1)));
    a.try_insert(2, 2, vec![bits(9.0), bits(9.0)], bits(4.5), (bits(0.9), bits(0.9)));
    assert_eq!(a.objective_of(2, 2), bits(5.0));
    assert_eq!(a.solution_of(2, 2), vec![bits(1.0), bits(1.0)]);
}

#[test]
fn nan_objective_never_replaces_incumbent() {
    let mut a = Archive::new(4, 2);
    a.try_insert(3, 3, vec![bits(1.0), bits(1.0)], bits(-7.0), (bits(0.0), bits(0.0)));
    a.try_insert(3, 3, vec![bits(9.0), bits(9.0)], bits(f64::NAN), (bits(0.0), bits(0.0)));
    assert_eq!(a.objective_of(3, 3), bits(-7.0));
}

#[test]
fn nan_objective_does_claim_a_free_cell() {
    // A free cell takes any proposal; afterwards no finite objective can
    // displace a NaN incumbent, since no comparison with it holds.
    let mut a = Archive::new(4, 2);
    a.try_insert(0, 1, vec![bits(1.0), bits(1.0)], bits(f64::NAN), (bits(0.0), bits(0.0)));
    assert!(a.is_occupied(0, 1));
    a.try_insert(0, 1, vec![bits(2.0), bits(2.0)], bits(1000.0), (bits(0.0), bits(0.0)));
    assert!(f64::from_bits(a.objective_of(0, 1)).is_nan());
}

#[test]
fn commit_candidate_clamps_and_inserts() {
    let mut a = Archive::new(10, 1);
    let cell = a.commit_candidate(12, 3, vec![bits(1.0)], bits(2.0), (bits(0.0), bits(0.0)));
    assert_eq!(cell, (9, 3));
    assert!(a.is_occupied(9, 3));
    assert_eq!(a.objective_of(9, 3), bits(2.0));
    assert_eq!(a.num_occupied(), 1);
}

#[test]
fn occupied_list_has_no_duplicates_under_repeated_inserts() {
    let mut a = Archive::new(3, 1);
    for round in 0..5u32 {
        for r in 0..3 {
            for c in 0..3 {
                let v = (round as f64) + (r as f64) * 0.1 + (c as f64) * 0.01;
                a.try_insert(r, c, vec![bits(v)], bits(v), (bits(v), bits(v)));
            }
        }
    }
    assert_eq!(a.num_occupied(), 9);
    let mut seen: Vec<(usize, usize)> = Vec::new();
    for k in 0..a.num_occupied() {
        let rc = a.occupied_cell(k);
        assert!(!seen.contains(&rc), "cell {:?} listed twice", rc);
        seen.push(rc);
    }
}

#[test]
fn objective_is_monotone_per_cell() {
    let mut a = Archive::new(2, 1);
    let proposals = [2.0, 1.0, 3.0, 3.0, -1.0, 2.5, 4.0];
    let mut best = f64::NEG_INFINITY;
    for (i, &p) in proposals.iter().enumerate() {
        a.try_insert(0, 0, vec![bits(i as f64)], bits(p), (bits(0.0), bits(0.0)));
        if i == 0 || p > best {
            best = p;
        }
        assert_eq!(a.objective_of(0, 0), bits(best));
    }
}
