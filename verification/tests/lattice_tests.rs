use mdbench::lattice::{cube_side, initialize_lattice, GridPoint};

fn gp(x: usize, y: usize, z: usize) -> GridPoint {
    GridPoint { x, y, z }
}

#[test]
fn cube_side_is_ceiling_of_cube_root() {
    assert_eq!(cube_side(0), 0);
    assert_eq!(cube_side(1), 1);
    assert_eq!(cube_side(2), 2);
    assert_eq!(cube_side(8), 2);
    assert_eq!(cube_side(9), 3);
    assert_eq!(cube_side(27), 3);
    assert_eq!(cube_side(28), 4);
    assert_eq!(cube_side(5000), 18);
}

#[test]
fn lattice_of_zero_atoms_is_empty() {
    assert_eq!(initialize_lattice(0), vec![]);
}

#[test]
fn lattice_of_one_atom_sits_at_the_grid_origin() {
    // One atom: the cube side is 1, and the single assigned cell is (0,0,0),
    // which the harness maps to the position (-s/2, -s/2, -s/2).
    assert_eq!(cube_side(1), 1);
    assert_eq!(initialize_lattice(1), vec![gp(0, 0, 0)]);
}

#[test]
fn lattice_enumerates_row_major_and_truncates() {
    // Ten atoms need a cube of side 3, enumerated over 0..=3 per axis with
    // x outermost and z innermost; the first ten cells are assigned.
    assert_eq!(cube_side(10), 3);
    let pts = initialize_lattice(10);
    assert_eq!(
        pts,
        vec![
            gp(0, 0, 0),
            gp(0, 0, 1),
            gp(0, 0, 2),
            gp(0, 0, 3),
            gp(0, 1, 0),
            gp(0, 1, 1),
            gp(0, 1, 2),
            gp(0, 1, 3),
            gp(0, 2, 0),
            gp(0, 2, 1),
        ]
    );
}

#[test]
fn lattice_is_deterministic() {
    for n in [0usize, 1, 2, 7, 64, 100, 250] {
        assert_eq!(initialize_lattice(n), initialize_lattice(n));
    }
}

#[test]
fn lattice_coordinates_stay_within_the_cube() {
    let n = 250;
    let side = cube_side(n);
    let pts = initialize_lattice(n);
    assert_eq!(pts.len(), n);
    for p in &pts {
        assert!(p.x <= side && p.y <= side && p.z <= side);
    }
}
