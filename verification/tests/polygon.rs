use circle::decimal::decimal_string;
use circle::polygon::{
    check_sides, circle_pairs, output_path, polygon_edges, polygon_name, touches_exactly_two,
    MIN_SIDES,
};

#[test]
fn decimal_text_of_small_and_large_numbers() {
    assert_eq!(decimal_string(0), "0");
    assert_eq!(decimal_string(7), "7");
    assert_eq!(decimal_string(10), "10");
    assert_eq!(decimal_string(800), "800");
    assert_eq!(decimal_string(1_000_000_007), "1000000007");
    assert_eq!(decimal_string(usize::MAX), usize::MAX.to_string());
}

#[test]
fn too_few_sides_are_refused_with_their_count() {
    assert_eq!(
        check_sides(2),
        Err("Number of sides must be at least 3 (got 2). A polygon needs at least 3 sides.".to_string())
    );
    assert_eq!(
        check_sides(0),
        Err("Number of sides must be at least 3 (got 0). A polygon needs at least 3 sides.".to_string())
    );
    assert_eq!(
        check_sides(1),
        Err("Number of sides must be at least 3 (got 1). A polygon needs at least 3 sides.".to_string())
    );
}

#[test]
fn three_sides_or_more_are_accepted() {
    assert_eq!(MIN_SIDES, 3);
    assert_eq!(check_sides(3), Ok(()));
    assert_eq!(check_sides(4), Ok(()));
    assert_eq!(check_sides(100), Ok(()));
    assert_eq!(check_sides(usize::MAX), Ok(()));
}

#[test]
fn polygons_are_named_by_their_sides() {
    assert_eq!(polygon_name(3), "triangle");
    assert_eq!(polygon_name(4), "square");
    assert_eq!(polygon_name(5), "pentagon");
    assert_eq!(polygon_name(6), "hexagon");
    assert_eq!(polygon_name(7), "heptagon");
    assert_eq!(polygon_name(8), "octagon");
    assert_eq!(polygon_name(9), "nonagon");
    assert_eq!(polygon_name(10), "decagon");
    assert_eq!(polygon_name(11), "polygon");
    assert_eq!(polygon_name(64), "polygon");
    assert_eq!(polygon_name(2), "polygon");
}

#[test]
fn images_are_saved_under_output() {
    assert_eq!(output_path("pentagon"), "output/pentagon.svg");
    assert_eq!(output_path(polygon_name(12)), "output/polygon.svg");
    assert_eq!(output_path(""), "output/.svg");
}

#[test]
fn edges_go_round_the_polygon() {
    assert_eq!(polygon_edges(4), vec![(0, 1), (1, 2), (2, 3), (3, 0)]);
    assert_eq!(polygon_edges(3), vec![(0, 1), (1, 2), (2, 0)]);
    assert_eq!(polygon_edges(1), vec![(0, 0)]);
    assert!(polygon_edges(0).is_empty());
}

#[test]
fn every_vertex_ends_exactly_one_edge() {
    let n = 7;
    let edges = polygon_edges(n);
    for j in 0..n {
        let ending: Vec<usize> = (0..n).filter(|&i| edges[i].1 == j).collect();
        assert_eq!(ending, vec![(j + n - 1) % n]);
    }
}

#[test]
fn every_pair_of_circles_once_in_order() {
    assert_eq!(
        circle_pairs(4),
        vec![(0, 1), (0, 2), (0, 3), (1, 2), (1, 3), (2, 3)]
    );
    assert!(circle_pairs(1).is_empty());
    assert!(circle_pairs(0).is_empty());
    assert_eq!(circle_pairs(10).len(), 45);
}

#[test]
fn a_circle_rests_when_it_touches_two_edges() {
    assert!(touches_exactly_two(&vec![true, false, true, false]));
    assert!(touches_exactly_two(&vec![false, true, false, false, true]));
    assert!(!touches_exactly_two(&vec![true, true, true]));
    assert!(!touches_exactly_two(&vec![false, true, false]));
    assert!(!touches_exactly_two(&vec![]));
}

#[test]
fn starting_at_another_edge_keeps_the_answer() {
    let touching = vec![false, true, false, false, true, false];
    let n = touching.len();
    for k in 0..n {
        let rotated: Vec<bool> = (0..n).map(|i| touching[(i + k) % n]).collect();
        assert!(touches_exactly_two(&rotated));
    }
    let three = vec![true, false, true, true];
    for k in 0..three.len() {
        let rotated: Vec<bool> = (0..4).map(|i| three[(i + k) % 4]).collect();
        assert!(!touches_exactly_two(&rotated));
    }
}
