use vstd::prelude::*;
use vstd::arithmetic::div_mod::lemma_fundamental_div_mod_converse;

verus! {

/// A cell of the initialization grid: integer coordinates along the three
/// axes. The simulation scales these by the lattice spacing and centers them
/// on the origin to obtain real positions.
#[derive(Clone, Copy, PartialEq, Eq, Structural, Debug)]
pub struct GridPoint {
    pub x: usize,
    pub y: usize,
    pub z: usize,
}

/// `m` is the smallest edge length whose cube holds at least `n` cells:
/// the ceiling of the real cube root of `n`.
pub open spec fn is_cube_side(m: nat, n: nat) -> bool {
    &&& m * m * m >= n
    &&& m > 0 ==> (m - 1) * (m - 1) * (m - 1) < n
}

/// The ceiling of the real cube root of `n`.
pub open spec fn spec_cube_side(n: nat) -> nat {
    choose|m: nat| is_cube_side(m, n)
}

pub proof fn lemma_cube_side_unique(a: nat, b: nat, n: nat)
    requires
        is_cube_side(a, n),
        is_cube_side(b, n),
    ensures
        a == b,
{
    if a < b {
        assert(a * a * a <= (b - 1) * (b - 1) * (b - 1)) by (nonlinear_arith)
            requires
                0 <= a <= b - 1,
        ;
    }
    if b < a {
        assert(b * b * b <= (a - 1) * (a - 1) * (a - 1)) by (nonlinear_arith)
            requires
                0 <= b <= a - 1,
        ;
    }
}

/// The edge length of the lattice cube: the least `m` with `m^3 >= nb_atoms`.
/// The grid then enumerates `m + 1` coordinate values per axis.
pub fn cube_side(nb_atoms: usize) -> (m: usize)
    ensures
        is_cube_side(m as nat, nb_atoms as nat),
        m as nat == spec_cube_side(nb_atoms as nat),
        m <= nb_atoms,
        m <= 3000000,
{
    let n: u128 = nb_atoms as u128;
    let mut m: u128 = 0;
    let mut cube: u128 = 0;
    while cube < n
        invariant
            n == nb_atoms as u128,
            cube == m * m * m,
            m <= n,
            m <= 3000000,
            m > 0 ==> (m - 1) * (m - 1) * (m - 1) < n,
        decreases n - m,
    {
        proof {
            assert(m < n) by {
                if m >= 1 {
                    assert(m <= m * m * m) by (nonlinear_arith)
                        requires
                            m >= 1,
                    ;
                }
            }
            assert(m < 3000000) by {
                if m >= 3000000 {
                    assert(m * m * m >= 27000000000000000000) by (nonlinear_arith)
                        requires
                            m >= 3000000,
                    ;
                }
            }
        }
        m = m + 1;
        proof {
            assert(m * m <= 9000000000000) by (nonlinear_arith)
                requires
                    m <= 3000000,
            ;
            assert(m * m * m <= 27000000000000000000) by (nonlinear_arith)
                requires
                    m <= 3000000,
            ;
        }
        let sq: u128 = m * m;
        cube = sq * m;
    }
    let res: usize = m as usize;
    proof {
        assert(is_cube_side(res as nat, nb_atoms as nat));
        assert(exists|mm: nat| is_cube_side(mm, nb_atoms as nat)) by {
            assert(is_cube_side(res as nat, nb_atoms as nat));
        }
        lemma_cube_side_unique(res as nat, spec_cube_side(nb_atoms as nat), nb_atoms as nat);
    }
    res
}

/// Whether `p` is the `k`-th cell of the row-major enumeration of the cube
/// with `s` cells per axis (x outermost, z innermost).
pub open spec fn grid_point_at(p: GridPoint, k: int, s: int) -> bool {
    &&& p.x == k / (s * s)
    &&& p.y == (k / s) % s
    &&& p.z == k % s
}

/// The first `nb_atoms` cells of the lattice grid, in row-major enumeration
/// order over a cube with `spec_cube_side(nb_atoms) + 1` coordinate values
/// per axis. The grid over-allocates and the enumeration stops once
/// `nb_atoms` cells are assigned.
pub fn initialize_lattice(nb_atoms: usize) -> (r: Vec<GridPoint>)
    ensures
        r@.len() == nb_atoms,
        forall|k: int|
            0 <= k < nb_atoms ==> #[trigger] grid_point_at(
                r@[k],
                k,
                (spec_cube_side(nb_atoms as nat) + 1) as int,
            ),
{
    let m = cube_side(nb_atoms);
    let s = m + 1;
    let ghost si: int = s as int;
    let mut r: Vec<GridPoint> = Vec::new();
    let mut i: usize = 0;
    let mut x: usize = 0;
    while x < s
        invariant
            si == s as int,
            s == m + 1,
            m as nat == spec_cube_side(nb_atoms as nat),
            (m as int) * (m as int) * (m as int) >= nb_atoms as int,
            s <= 3000001,
            x <= s,
            i as int == x as int * si * si,
            i <= nb_atoms,
            r@.len() == i,
            forall|k: int| 0 <= k < i ==> #[trigger] grid_point_at(r@[k], k, si),
        decreases s - x,
    {
        let mut y: usize = 0;
        while y < s
            invariant
                si == s as int,
                s == m + 1,
                m as nat == spec_cube_side(nb_atoms as nat),
                s <= 3000001,
                x < s,
                y <= s,
                i as int == x as int * si * si + y as int * si,
                i <= nb_atoms,
                r@.len() == i,
                forall|k: int| 0 <= k < i ==> #[trigger] grid_point_at(r@[k], k, si),
            decreases s - y,
        {
            let mut z: usize = 0;
            while z < s
                invariant
                    si == s as int,
                    s == m + 1,
                    m as nat == spec_cube_side(nb_atoms as nat),
                    s <= 3000001,
                    x < s,
                    y < s,
                    z <= s,
                    i as int == x as int * si * si + y as int * si + z as int,
                    i <= nb_atoms,
                    r@.len() == i,
                    forall|k: int| 0 <= k < i ==> #[trigger] grid_point_at(r@[k], k, si),
                decreases s - z,
            {
                if i >= nb_atoms {
                    return r;
                }
                let p = GridPoint { x, y, z };
                proof {
                    lemma_grid_point_at(p, i as int, si);
                }
                r.push(p);
                i = i + 1;
                z = z + 1;
            }
            y = y + 1;
            proof {
                assert(x as int * si * si + (y - 1) as int * si + si == x as int * si * si + y
                    as int * si) by (nonlinear_arith);
            }
        }
        x = x + 1;
        proof {
            assert(x as int * si * si == (x - 1) as int * si * si + si * si) by (nonlinear_arith);
        }
    }
    proof {
        assert((m as int) * (m as int) * (m as int) < si * si * si) by (nonlinear_arith)
            requires
                si == m as int + 1,
                m >= 0,
        ;
        assert(si * si * si == s as int * si * si) by (nonlinear_arith)
            requires
                si == s as int,
        ;
        assert(false);
    }
    r
}

/// Relates the loop coordinates of the enumeration to their row-major rank:
/// a point pushed at rank `k = x*s*s + y*s + z` with in-range coordinates is
/// the `k`-th cell of the grid.
proof fn lemma_grid_point_at(p: GridPoint, k: int, s: int)
    requires
        0 <= p.x < s,
        0 <= p.y < s,
        0 <= p.z < s,
        k == p.x as int * s * s + p.y as int * s + p.z as int,
    ensures
        grid_point_at(p, k, s),
{
    let x = p.x as int;
    let y = p.y as int;
    let z = p.z as int;
    assert(0 <= y * s + z < s * s) by (nonlinear_arith)
        requires
            0 <= y < s,
            0 <= z < s,
    ;
    assert(k == x * (s * s) + (y * s + z)) by (nonlinear_arith)
        requires
            k == x * s * s + y * s + z,
    ;
    lemma_fundamental_div_mod_converse(k, s * s, x, y * s + z);
    assert(k == (x * s + y) * s + z) by (nonlinear_arith)
        requires
            k == x * s * s + y * s + z,
    ;
    lemma_fundamental_div_mod_converse(k, s, x * s + y, z);
    lemma_fundamental_div_mod_converse(x * s + y, s, x, y);
}

/// Law: lattice initialization is deterministic. The grid enumeration is a
/// function of the particle count alone, so any two position sequences that
/// satisfy the initializer's contract for the same count are identical.
pub proof fn lemma_lattice_deterministic(a: Seq<GridPoint>, b: Seq<GridPoint>, n: nat)
    requires
        a.len() == n,
        b.len() == n,
        forall|k: int| 0 <= k < n ==> #[trigger] grid_point_at(a[k], k, (spec_cube_side(n) + 1) as int),
        forall|k: int| 0 <= k < n ==> #[trigger] grid_point_at(b[k], k, (spec_cube_side(n) + 1) as int),
    ensures
        a == b,
{
    assert forall|k: int| 0 <= k < n implies a[k] == b[k] by {
        assert(grid_point_at(a[k], k, (spec_cube_side(n) + 1) as int));
        assert(grid_point_at(b[k], k, (spec_cube_side(n) + 1) as int));
    }
    assert(a =~= b);
}

} // verus!
