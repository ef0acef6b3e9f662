use crate::cube::{well_formed, CubeState};
use crate::invariants::{corner_permutation, edge_permutation, twist_total, valid};
use crate::location::CubePieceLocation;
use crate::permutations::{
    is_even, is_permutation, lemma_neighbour_swap_parity, lemma_swapped_permutation,
    permutation_parity, random_uniform_permutation, swapped,
};
use crate::piece::CubePiece;
use crate::twist::Twist;
use rand::Rng;
use vstd::prelude::*;

verus! {

/// The steps of the first `upto` twists, added up.
pub open spec fn steps_total(twists: Seq<Twist>, upto: int) -> int
    decreases upto,
{
    if upto <= 0 {
        0
    } else {
        steps_total(twists, upto - 1) + twists[upto - 1].steps()
    }
}

/// The arrangement of the edges made as even or odd as that of the corners:
/// where the two differ, the first two edges change places.
pub open spec fn parity_corrected(corners: Seq<usize>, edges: Seq<usize>) -> Seq<usize> {
    if is_even(corners) != is_even(edges) {
        swapped(edges, 0, 1)
    } else {
        edges
    }
}

/// The corner twists with the first one changed so that all add up to a
/// multiple of three.
pub open spec fn corner_twists_corrected(twists: Seq<Twist>) -> Seq<Twist> {
    twists.update(
        0,
        twists[0].corner_sum(
            Twist::of_steps((steps_total(twists, 8) % 3) as nat).corner_inverse(),
        ),
    )
}

/// The edge twists with the first one changed so that all add up to a
/// multiple of two.
pub open spec fn edge_twists_corrected(twists: Seq<Twist>) -> Seq<Twist> {
    twists.update(
        0,
        twists[0].edge_sum(Twist::of_steps((steps_total(twists, 12) % 2) as nat).edge_inverse()),
    )
}

/// The pieces of the state in which corner slot `i` holds the corner that
/// belongs at place `corners[i]`, with the twist `corner_twists[i]`, and edge
/// slot `i` the edge that belongs at place `edges[i]` among the edge slots,
/// with the twist `edge_twists[i]`.
pub open spec fn assembled(
    corners: Seq<usize>,
    edges: Seq<usize>,
    corner_twists: Seq<Twist>,
    edge_twists: Seq<Twist>,
) -> Seq<CubePiece> {
    Seq::new(
        20,
        |i: int|
            if i < 8 {
                CubePiece { piece: CubePieceLocation::at(corners[i] as int), twist: corner_twists[i] }
            } else {
                CubePiece {
                    piece: CubePieceLocation::at(8 + edges[i - 8]),
                    twist: edge_twists[i - 8],
                }
            },
    )
}

/// The twists of the assembled pieces add up as the twists given do.
proof fn lemma_assembled_totals(
    corners: Seq<usize>,
    edges: Seq<usize>,
    corner_twists: Seq<Twist>,
    edge_twists: Seq<Twist>,
    upto: int,
)
    requires
        0 <= upto <= 12,
    ensures
        upto <= 8 ==> twist_total(assembled(corners, edges, corner_twists, edge_twists), 0, upto)
            == steps_total(corner_twists, upto),
        twist_total(assembled(corners, edges, corner_twists, edge_twists), 8, 8 + upto)
            == steps_total(edge_twists, upto),
    decreases upto,
{
    if upto > 0 {
        lemma_assembled_totals(corners, edges, corner_twists, edge_twists, upto - 1);
    }
}

/// Changing the first twist changes the total by the difference.
proof fn lemma_steps_total_update(twists: Seq<Twist>, twist: Twist, upto: int)
    requires
        1 <= upto <= twists.len(),
    ensures
        steps_total(twists.update(0, twist), upto) == steps_total(twists, upto)
            - twists[0].steps() + twist.steps(),
    decreases upto,
{
    if upto > 1 {
        lemma_steps_total_update(twists, twist, upto - 1);
    } else {
        reveal_with_fuel(steps_total, 2);
    }
}

/// The assembled pieces are a state that turns of the faces can reach, as
/// far as its invariants tell.
pub proof fn lemma_assembled_valid(
    corners: Seq<usize>,
    edges: Seq<usize>,
    corner_twists: Seq<Twist>,
    edge_twists: Seq<Twist>,
)
    requires
        corners.len() == 8,
        edges.len() == 12,
        corner_twists.len() == 8,
        edge_twists.len() == 12,
        is_permutation(corners),
        is_permutation(edges),
        is_even(corners) == is_even(edges),
        forall|i: int| 0 <= i < 12 ==> (#[trigger] edge_twists[i]).is_edge_twist(),
        steps_total(corner_twists, 8) % 3 == 0,
        steps_total(edge_twists, 12) % 2 == 0,
    ensures
        valid(assembled(corners, edges, corner_twists, edge_twists)),
{
    let pieces = assembled(corners, edges, corner_twists, edge_twists);
    assert forall|i: int| 0 <= i < 20 implies (#[trigger] pieces[i]).wf() && (
    pieces[i].piece.corner() <==> i < 8) by {
        if i < 8 {
            assert(corners[i] < 8);
            CubePieceLocation::lemma_at(corners[i] as int);
        } else {
            assert(edges[i - 8] < 12);
            assert(edge_twists[i - 8].is_edge_twist());
            CubePieceLocation::lemma_at(8 + edges[i - 8]);
        }
    }
    assert(well_formed(pieces));
    assert forall|i: int, j: int| 0 <= i < j < pieces.len() implies (#[trigger] pieces[i]).piece
        != (#[trigger] pieces[j]).piece by {
        assert(pieces[i].piece.corner() <==> i < 8);
        assert(pieces[j].piece.corner() <==> j < 8);
        if j < 8 {
            assert(corners[i] != corners[j]);
            CubePieceLocation::lemma_at(corners[i] as int);
            CubePieceLocation::lemma_at(corners[j] as int);
        } else if i >= 8 {
            assert(edges[i - 8] != edges[j - 8]);
            CubePieceLocation::lemma_at(8 + edges[i - 8]);
            CubePieceLocation::lemma_at(8 + edges[j - 8]);
        }
    }
    lemma_assembled_totals(corners, edges, corner_twists, edge_twists, 8);
    lemma_assembled_totals(corners, edges, corner_twists, edge_twists, 12);
    assert(corner_permutation(pieces) =~= corners) by {
        assert forall|i: int| 0 <= i < 8 implies corner_permutation(pieces)[i] == corners[i] by {
            assert(corners[i] < 8);
            CubePieceLocation::lemma_at(corners[i] as int);
        }
    }
    assert(edge_permutation(pieces) =~= edges) by {
        assert forall|i: int| 0 <= i < 12 implies edge_permutation(pieces)[i] == edges[i] by {
            assert(edges[i] < 12);
            CubePieceLocation::lemma_at(8 + edges[i]);
        }
    }
}

impl CubeState {
    /// Builds a state from an arrangement of the corners, one of the edges,
    /// and a twist for each piece, after two corrections: the first two
    /// edges change places where the two arrangements are not both even or
    /// both odd, and the first corner twist and the first edge twist are
    /// changed so that the twists of each kind add up to nothing.
    pub fn from_parts(
        corners: [usize; 8],
        edges: [usize; 12],
        corner_twists: [Twist; 8],
        edge_twists: [Twist; 12],
    ) -> (cube: CubeState)
        requires
            is_permutation(corners@),
            is_permutation(edges@),
            forall|i: int| 0 <= i < 12 ==> (#[trigger] edge_twists@[i]).is_edge_twist(),
        ensures
            cube@ == assembled(
                corners@,
                parity_corrected(corners@, edges@),
                corner_twists_corrected(corner_twists@),
                edge_twists_corrected(edge_twists@),
            ),
            valid(cube@),
    {
        let mut edges = edges;
        let mut corner_twists = corner_twists;
        let mut edge_twists = edge_twists;
        let ghost edges_given = edges@;
        let ghost corner_twists_given = corner_twists@;
        let ghost edge_twists_given = edge_twists@;

        if permutation_parity(&corners) != permutation_parity(&edges) {
            let first = edges[0];
            edges[0] = edges[1];
            edges[1] = first;
            proof {
                assert(edges@ =~= swapped(edges_given, 0, 1));
                assert(edges_given[0] != edges_given[1]);
                lemma_neighbour_swap_parity(edges_given, 0);
                lemma_swapped_permutation(edges_given, 0, 1);
            }
        }
        assert(edges@ == parity_corrected(corners@, edges_given));

        let mut corner_twist_sum = Twist::Solved;
        let mut i: usize = 0;
        while i < 8
            invariant
                i <= 8,
                corner_twist_sum == Twist::of_steps(
                    (steps_total(corner_twists@, i as int) % 3) as nat,
                ),
            decreases 8 - i,
        {
            corner_twist_sum = corner_twists[i].corner_add(corner_twist_sum);
            i = i + 1;
        }
        let mut edge_twist_sum = Twist::Solved;
        let mut i: usize = 0;
        while i < 12
            invariant
                i <= 12,
                forall|k: int| 0 <= k < 12 ==> (#[trigger] edge_twists@[k]).is_edge_twist(),
                edge_twist_sum == Twist::of_steps((steps_total(edge_twists@, i as int) % 2) as nat),
            decreases 12 - i,
        {
            assert(edge_twists@[i as int].is_edge_twist());
            edge_twist_sum = edge_twists[i].edge_add(edge_twist_sum);
            i = i + 1;
        }

        corner_twists[0] = corner_twists[0].corner_add(corner_twist_sum.corner_opposite());
        edge_twists[0] = edge_twists[0].edge_add(edge_twist_sum.edge_opposite());
        proof {
            assert(corner_twists@ =~= corner_twists_corrected(corner_twists_given));
            assert(edge_twists@ =~= edge_twists_corrected(edge_twists_given));
            lemma_steps_total_update(corner_twists_given, corner_twists@[0], 8);
            lemma_steps_total_update(edge_twists_given, edge_twists@[0], 12);
            assert(edge_twists_given[0].is_edge_twist());
            assert forall|k: int| 0 <= k < 12 implies (#[trigger] edge_twists@[k]).is_edge_twist() by {
                if k > 0 {
                    assert(edge_twists_given[k].is_edge_twist());
                }
            }
        }

        let mut cubies = [CubePiece::from_location(CubePieceLocation::URF);20];
        let ghost pieces = assembled(corners@, edges@, corner_twists@, edge_twists@);
        let mut i: usize = 0;
        while i < 8
            invariant
                i <= 8,
                is_permutation(corners@),
                pieces == assembled(corners@, edges@, corner_twists@, edge_twists@),
                forall|k: int| 0 <= k < i ==> cubies@[k] == pieces[k],
            decreases 8 - i,
        {
            assert(corners@[i as int] < 8);
            let location = CubePieceLocation::from_index(corners[i]);
            cubies[i] = CubePiece { piece: location, twist: corner_twists[i] };
            i = i + 1;
        }
        let mut i: usize = 0;
        while i < 12
            invariant
                i <= 12,
                is_permutation(edges@),
                pieces == assembled(corners@, edges@, corner_twists@, edge_twists@),
                forall|k: int| 0 <= k < 8 + i ==> cubies@[k] == pieces[k],
            decreases 12 - i,
        {
            assert(edges@[i as int] < 12);
            let location = CubePieceLocation::from_index(8 + edges[i]);
            cubies[8 + i] = CubePiece { piece: location, twist: edge_twists[i] };
            i = i + 1;
        }
        proof {
            assert(cubies@ =~= pieces);
            lemma_assembled_valid(corners@, edges@, corner_twists@, edge_twists@);
        }
        CubeState::from_cubies(cubies)
    }

    /// A state drawn with `rng` from the states that turns of the faces can
    /// reach: an arrangement of the corners, one of the edges and a twist for
    /// each piece are drawn, and [`CubeState::from_parts`] corrects and
    /// assembles them.
    pub fn random_uniform<R: Rng>(rng: &mut R) -> (cube: CubeState)
        ensures
            valid(cube@),
    {
        let corners_permutation = random_uniform_permutation::<8, R>(rng);
        let edges_permutation = random_uniform_permutation::<12, R>(rng);
        let mut corner_twists = [Twist::Solved;8];
        let mut i: usize = 0;
        while i < 8
            invariant
                i <= 8,
            decreases 8 - i,
        {
            corner_twists[i] = Twist::random_uniform_corner(rng);
            i = i + 1;
        }
        let mut edge_twists = [Twist::Solved;12];
        let mut i: usize = 0;
        while i < 12
            invariant
                i <= 12,
                forall|k: int| 0 <= k < 12 ==> (#[trigger] edge_twists@[k]).is_edge_twist(),
            decreases 12 - i,
        {
            edge_twists[i] = Twist::random_uniform_edge(rng);
            i = i + 1;
        }
        CubeState::from_parts(corners_permutation, edges_permutation, corner_twists, edge_twists)
    }
}

} // verus!
