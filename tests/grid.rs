use tccd::grid::SpatialGrid;

fn grid_of(coords: Vec<(i32, i32)>) -> SpatialGrid {
    let mut g = SpatialGrid::new();
    g.rebuild(coords);
    g
}

fn sorted(mut v: Vec<usize>) -> Vec<usize> {
    v.sort();
    v
}

#[test]
fn rebuild_files_each_particle_under_its_cell() {
    let g = grid_of(vec![(0, 0), (5, 5), (0, 0), (-1, 2)]);
    assert_eq!(g.len(), 4);
    assert_eq!(g.cell_of(2), (0, 0));
    assert_eq!(g.cell_of(3), (-1, 2));
}

#[test]
fn rebuild_replaces_previous_contents() {
    let mut g = grid_of(vec![(0, 0), (0, 0), (0, 0)]);
    g.rebuild(vec![(9, 9)]);
    assert_eq!(g.len(), 1);
    assert_eq!(g.cell_list(0), vec![0]);
}

#[test]
fn cell_list_covers_the_three_by_three_block() {
    let g = grid_of(vec![(0, 0), (1, 1), (-1, 0), (2, 0), (0, -2), (1, -1)]);
    assert_eq!(sorted(g.cell_list(0)), vec![0, 1, 2, 5]);
    assert_eq!(sorted(g.cell_list(3)), vec![1, 3, 5]);
}

#[test]
fn cell_list_at_the_edge_of_the_coordinate_range() {
    let g = grid_of(vec![(i32::MAX, i32::MIN), (i32::MAX - 1, i32::MIN + 1), (0, 0)]);
    assert_eq!(sorted(g.cell_list(0)), vec![0, 1]);
}

#[test]
fn swept_aabb_excludes_the_particle_itself() {
    let g = grid_of(vec![(0, 0), (0, 0), (3, 1), (4, 4), (-1, -1)]);
    assert_eq!(sorted(g.candidates_swept_aabb(0, (-1, -1), (3, 2))), vec![1, 2, 4]);
    assert_eq!(sorted(g.candidates_swept_aabb(3, (4, 4), (4, 4))), Vec::<usize>::new());
}

#[test]
fn sweep_candidates_are_deduplicated() {
    let g = grid_of(vec![(0, 0), (1, 0), (2, 0), (3, 0), (9, 9)]);
    let path = vec![(0, 0), (1, 0), (2, 0)];
    let r = g.candidates_along_sweep_with_radius(0, &path, 1);
    assert_eq!(r.len(), 3);
    assert_eq!(sorted(r), vec![1, 2, 3]);
}

#[test]
fn sweep_widens_by_k_cells() {
    let g = grid_of(vec![(0, 0), (0, 3), (0, 4)]);
    let path = vec![(0, 0)];
    assert_eq!(sorted(g.candidates_along_sweep_with_radius(0, &path, 3)), vec![1]);
    assert_eq!(sorted(g.candidates_along_sweep_with_radius(0, &path, 4)), vec![1, 2]);
    assert_eq!(g.candidates_along_sweep_with_radius(0, &Vec::new(), 4), Vec::<usize>::new());
}
