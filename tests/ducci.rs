use ducci_paths::classify::{
    is_checker_convergence, is_ladder_convergence, is_terminal, is_zero_convergence,
};
use ducci_paths::quad::{generate_rotations, generate_swaps, next_ducci};
use ducci_paths::search::{calculate_paths, SearchError, MAX_DEPTH};
use ducci_paths::text::{write_paths, write_tuple};

fn sorted(q: [i8; 4]) -> [i8; 4] {
    let mut v = q;
    v.sort();
    v
}

#[test]
fn step_takes_cyclic_differences() {
    assert_eq!(next_ducci(&[1, 0, 0, 0]), [1, 0, 0, 1]);
    assert_eq!(next_ducci(&[3, 7, 2, 9]), [4, 5, 7, 6]);
    assert_eq!(next_ducci(&[0, 0, 0, 0]), [0, 0, 0, 0]);
    assert_eq!(next_ducci(&[-5, 5, 0, 39]), [10, 5, 39, 44]);
}

#[test]
fn step_stays_within_domain() {
    for a in 0..10i8 {
        for b in 0..10i8 {
            for c in 0..10i8 {
                for d in [0i8, 4, 9] {
                    let q = [a, b, c, d];
                    let max = *q.iter().max().unwrap();
                    for x in next_ducci(&q) {
                        assert!(0 <= x && x <= max);
                    }
                }
            }
        }
    }
}

#[test]
fn swaps_exchange_fixed_positions() {
    let swaps = generate_swaps(&[1, 2, 3, 4]);
    assert_eq!(swaps, [[2, 1, 3, 4], [1, 3, 2, 4]]);
    for s in swaps {
        assert_eq!(sorted(s), [1, 2, 3, 4]);
    }
    let swaps = generate_swaps(&[5, 5, 0, 7]);
    assert_eq!(swaps, [[5, 5, 0, 7], [5, 0, 5, 7]]);
}

#[test]
fn rotations_shift_forward() {
    assert_eq!(
        generate_rotations(&[1, 2, 3, 4]),
        [[1, 2, 3, 4], [4, 1, 2, 3], [3, 4, 1, 2], [2, 3, 4, 1]]
    );
}

#[test]
fn shapes_are_recognised() {
    assert!(is_zero_convergence(&[0, 0, 0, 0]));
    assert!(!is_zero_convergence(&[0, 0, 1, 0]));
    assert!(is_checker_convergence(&[0, 5, 0, 5]));
    assert!(!is_checker_convergence(&[5, 0, 5, 0]));
    assert!(is_ladder_convergence(&[0, 3, 6, 3]));
    assert!(!is_ladder_convergence(&[3, 6, 3, 0]));
    assert!(!is_ladder_convergence(&[0, 100, -56, 100]));
}

#[test]
fn terminal_zero_checker_and_ladder() {
    assert!(is_terminal(&[0, 0, 0, 0]));
    assert!(is_terminal(&[5, 0, 5, 0]));
    assert!(is_terminal(&[3, 6, 3, 0]));
    assert!(is_terminal(&[6, 3, 0, 3]));
    assert!(!is_terminal(&[1, 0, 0, 1]));
    assert!(!is_terminal(&[1, 1, 1, 1]));
    assert!(!is_terminal(&[0, 100, -56, 100]));
}

#[test]
fn terminal_is_rotation_invariant() {
    for a in 0..5i8 {
        for b in 0..5i8 {
            for c in 0..5i8 {
                for d in 0..5i8 {
                    let q = [a, b, c, d];
                    let t = is_terminal(&q);
                    for r in generate_rotations(&q) {
                        assert_eq!(is_terminal(&r), t);
                    }
                }
            }
        }
    }
}

#[test]
fn search_from_zero() {
    assert_eq!(next_ducci(&[0, 0, 0, 0]), [0, 0, 0, 0]);
    assert!(is_terminal(&[0, 0, 0, 0]));
    assert_eq!(
        calculate_paths(&[0, 0, 0, 0], MAX_DEPTH),
        Ok(vec![([0, 0, 0, 0], 0)])
    );
}

#[test]
fn search_from_one_zero_zero_zero() {
    assert_eq!(next_ducci(&[1, 0, 0, 0]), [1, 0, 0, 1]);
    assert!(!is_terminal(&[1, 0, 0, 1]));
    assert_eq!(generate_swaps(&[1, 0, 0, 1]), [[0, 1, 0, 1], [1, 0, 0, 1]]);
    assert_eq!(
        calculate_paths(&[0, 1, 0, 1], MAX_DEPTH),
        Ok(vec![([0, 0, 0, 0], 1), ([0, 0, 0, 0], 1)])
    );
    assert_eq!(
        calculate_paths(&[1, 0, 0, 1], MAX_DEPTH),
        Ok(vec![([1, 0, 1, 0], 0)])
    );
    assert_eq!(
        calculate_paths(&[1, 0, 0, 0], MAX_DEPTH),
        Ok(vec![([0, 0, 0, 0], 2), ([0, 0, 0, 0], 2), ([1, 0, 1, 0], 1)])
    );
}

#[test]
fn search_fails_past_cap() {
    assert_eq!(
        calculate_paths(&[1, 0, 0, 0], 0),
        Err(SearchError::DepthExceeded)
    );
    assert_eq!(
        calculate_paths(&[1, 0, 0, 0], 1),
        Err(SearchError::DepthExceeded)
    );
    assert_eq!(
        calculate_paths(&[1, 0, 0, 0], 2),
        calculate_paths(&[1, 0, 0, 0], MAX_DEPTH)
    );
    assert_eq!(
        calculate_paths(&[0, 0, 0, 0], 0),
        Ok(vec![([0, 0, 0, 0], 0)])
    );
}

#[test]
fn search_leaves_are_terminal() {
    for a in 0..9i8 {
        for b in 0..9i8 {
            for c in 0..9i8 {
                for d in 0..9i8 {
                    let q = [a, b, c, d];
                    let paths = calculate_paths(&q, MAX_DEPTH).unwrap();
                    assert!(!paths.is_empty());
                    for (leaf, depth) in paths {
                        assert!(is_terminal(&leaf));
                        assert!(depth <= MAX_DEPTH);
                    }
                }
            }
        }
    }
}

#[test]
fn search_depths_follow_children() {
    let q = [3, 1, 4, 1];
    let next = next_ducci(&q);
    assert!(!is_terminal(&next));
    let swaps = generate_swaps(&next);
    let a = calculate_paths(&swaps[0], MAX_DEPTH).unwrap();
    let b = calculate_paths(&swaps[1], MAX_DEPTH).unwrap();
    let r = calculate_paths(&q, MAX_DEPTH).unwrap();
    assert_eq!(r.len(), a.len() + b.len());
    for (i, (leaf, depth)) in a.iter().chain(b.iter()).enumerate() {
        assert_eq!(r[i], (*leaf, depth + 1));
    }
}

#[test]
fn search_is_repeatable() {
    for q in [[1, 0, 0, 0], [3, 1, 4, 1], [39, 0, 17, 25], [7, 7, 2, 30]] {
        let first = calculate_paths(&q, MAX_DEPTH);
        let second = calculate_paths(&q, MAX_DEPTH);
        assert_eq!(first, second);
    }
}

#[test]
fn tuple_text() {
    assert_eq!(write_tuple([0, 0, 0, 0]), "(0,0,0,0)");
    assert_eq!(write_tuple([1, -2, 30, -128]), "(1,-2,30,-128)");
    assert_eq!(write_tuple([127, 39, 10, 9]), "(127,39,10,9)");
}

#[test]
fn paths_text() {
    assert_eq!(write_paths(vec![([0, 0, 0, 0], 0)]), "[(0,0,0,0):0]");
    assert_eq!(
        write_paths(vec![([0, 0, 0, 0], 2), ([0, 0, 0, 0], 2), ([1, 0, 1, 0], 1)]),
        "[(0,0,0,0):2,(0,0,0,0):2,(1,0,1,0):1]"
    );
    assert_eq!(write_paths(vec![([0, 3, 6, 3], 4294967295)]), "[(0,3,6,3):4294967295]");
    assert_eq!(write_paths(vec![]), "[]");
}

#[test]
fn search_spans_whole_range() {
    for a in (0..40i8).step_by(13) {
        for b in (0..40i8).step_by(7) {
            for c in (0..40i8).step_by(11) {
                for d in [0i8, 20, 39] {
                    let q = [a, b, c, d];
                    let paths = calculate_paths(&q, MAX_DEPTH).unwrap();
                    for (leaf, _) in paths {
                        assert!(is_terminal(&leaf));
                        assert!(leaf.iter().all(|&x| (0..40).contains(&x)));
                    }
                }
            }
        }
    }
}
