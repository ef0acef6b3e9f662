use vstd::prelude::*;

verus! {

/// The number of edge pieces of a cube with `n` layers: each of the twelve
/// edges of the cube holds all but the two pieces at its ends.
pub open spec fn edges_of(n: int) -> int {
    12 * (n - 2)
}

/// The number of centre pieces of a cube with `n` layers: each of the six
/// faces holds a square of them, two pieces less wide than the face. Up to
/// three layers no centre piece moves, and none is counted.
pub open spec fn centers_of(n: int) -> int {
    if n > 3 {
        6 * (n - 2) * (n - 2)
    } else {
        0
    }
}

/// The number of edge pieces of a cube with `n` layers.
pub fn edge_count(n: usize) -> (count: usize)
    requires
        n >= 2,
        edges_of(n as int) <= usize::MAX,
    ensures
        count == edges_of(n as int),
{
    12 * (n - 2)
}

/// The number of centre pieces of a cube with `n` layers.
pub fn center_count(n: usize) -> (count: usize)
    requires
        centers_of(n as int) <= usize::MAX,
    ensures
        count == centers_of(n as int),
{
    if n > 3 {
        let n_minus_2 = n - 2;
        assert(6 * n_minus_2 <= 6 * n_minus_2 * n_minus_2) by (nonlinear_arith)
            requires
                n_minus_2 >= 1,
        ;
        assert(6 * (n - 2) * (n - 2) == 6 * n_minus_2 * n_minus_2) by (nonlinear_arith)
            requires
                n_minus_2 == n - 2,
        ;
        6 * n_minus_2 * n_minus_2
    } else {
        0
    }
}

/// A piece of a cube of any size.
#[derive(Debug, Clone, Copy, PartialEq, Eq, Structural)]
pub struct NPiece {}

/// A cube with `N` layers, as the pieces of each kind.
#[derive(Debug, Clone, Copy)]
pub struct NCube<const N: usize, const CORNERS: usize, const EDGES: usize, const CENTERS: usize> {
    pub corners: [NPiece; CORNERS],
    pub edges: [NPiece; EDGES],
    pub centers: [NPiece; CENTERS],
}

impl<const N: usize, const CORNERS: usize, const EDGES: usize, const CENTERS: usize> NCube<
    N,
    CORNERS,
    EDGES,
    CENTERS,
> {
    /// The cube with as many pieces of each kind as its type tells.
    pub fn new() -> (cube: Self)
        ensures
            cube.corners@.len() == CORNERS,
            cube.edges@.len() == EDGES,
            cube.centers@.len() == CENTERS,
            cube.corners@ == Seq::new(CORNERS as nat, |i: int| NPiece {  }),
            cube.edges@ == Seq::new(EDGES as nat, |i: int| NPiece {  }),
            cube.centers@ == Seq::new(CENTERS as nat, |i: int| NPiece {  }),
    {
        let cube = NCube {
            corners: [NPiece {  };CORNERS],
            edges: [NPiece {  };EDGES],
            centers: [NPiece {  };CENTERS],
        };
        assert(cube.corners@ =~= Seq::new(CORNERS as nat, |i: int| NPiece {  }));
        assert(cube.edges@ =~= Seq::new(EDGES as nat, |i: int| NPiece {  }));
        assert(cube.centers@ =~= Seq::new(CENTERS as nat, |i: int| NPiece {  }));
        cube
    }
}

} // verus!
