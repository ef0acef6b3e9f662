use crate::cube::{solved_pieces, well_formed};
use crate::faces::Face;
use crate::laws::{
    arrival, lemma_cycled_pointwise, lemma_cycles, lemma_gains, lemma_quarter_turn_pointwise,
    lemma_quarter_turn_well_formed, lemma_source_kind, lemma_sources, source,
};
use crate::location::CubePieceLocation;
use crate::moves::CubeMove;
use crate::permutations::{is_even, is_permutation, lemma_four_cycle_parity};
use crate::piece::CubePiece;
use crate::turns::{
    corner_cycle, corner_slot, corner_twists, cycled, distinct_slots, edge_cycle, edge_slot,
    edge_twists, lemma_distinct_places, moved, moved_all, quarter_turned, turned,
};
use crate::twist::Twist;
use vstd::prelude::*;

verus! {

/// The steps of the twists of the pieces at the places from `from` up to,
/// and not including, `to`, added up.
pub open spec fn twist_total(pieces: Seq<CubePiece>, from: int, to: int) -> int
    decreases to - from,
{
    if to <= from {
        0
    } else {
        twist_total(pieces, from, to - 1) + pieces[to - 1].twist.steps()
    }
}

/// The twists of the eight corners, added up.
pub open spec fn corner_twist_total(pieces: Seq<CubePiece>) -> int {
    twist_total(pieces, 0, 8)
}

/// The twists of the twelve edges, added up.
pub open spec fn edge_twist_total(pieces: Seq<CubePiece>) -> int {
    twist_total(pieces, 8, 20)
}

/// No piece sits in two slots.
pub open spec fn distinct_pieces(pieces: Seq<CubePiece>) -> bool {
    forall|i: int, j: int|
        0 <= i < j < pieces.len() ==> (#[trigger] pieces[i]).piece != (#[trigger] pieces[j]).piece
}

/// The corners as an arrangement of the numbers below eight: for each corner
/// slot, the place of the slot that its piece belongs to.
pub open spec fn corner_permutation(pieces: Seq<CubePiece>) -> Seq<usize> {
    Seq::new(8, |i: int| pieces[i].piece.index() as usize)
}

/// The edges as an arrangement of the numbers below twelve: for each edge
/// slot, the place among the edge slots of the slot that its piece belongs
/// to.
pub open spec fn edge_permutation(pieces: Seq<CubePiece>) -> Seq<usize> {
    Seq::new(12, |i: int| (pieces[8 + i].piece.index() - 8) as usize)
}

/// What holds of every state that turns of the faces can reach: every slot
/// holds a piece of its kind, no piece sits in two slots, the corner twists
/// add up to a multiple of three and the edge twists to a multiple of two,
/// and the arrangement of the corners is even exactly when that of the edges
/// is.
pub open spec fn valid(pieces: Seq<CubePiece>) -> bool {
    &&& well_formed(pieces)
    &&& distinct_pieces(pieces)
    &&& corner_twist_total(pieces) % 3 == 0
    &&& edge_twist_total(pieces) % 2 == 0
    &&& is_even(corner_permutation(pieces)) == is_even(edge_permutation(pieces))
}

/// Replacing the piece of one place changes the total by the difference of
/// the two twists, if the place is in the range, and not at all if it is
/// outside.
pub proof fn lemma_total_update(
    pieces: Seq<CubePiece>,
    from: int,
    to: int,
    place: int,
    piece: CubePiece,
)
    requires
        0 <= from <= to <= pieces.len(),
        0 <= place < pieces.len(),
    ensures
        twist_total(pieces.update(place, piece), from, to) == if from <= place < to {
            twist_total(pieces, from, to) - pieces[place].twist.steps() + piece.twist.steps()
        } else {
            twist_total(pieces, from, to)
        },
    decreases to - from,
{
    if to > from {
        lemma_total_update(pieces, from, to - 1, place, piece);
    }
}

/// Turning a piece adds the steps of the twist to its own, up to a multiple
/// of the order of its group.
pub proof fn lemma_turned_steps(piece: CubePiece, twist: Twist)
    ensures
        piece.piece.corner() ==> piece.turned(twist).twist.steps() == piece.twist.steps()
            + twist.steps() - 3 * ((piece.twist.steps() + twist.steps()) / 3),
        piece.piece.edge() ==> piece.turned(twist).twist.steps() == piece.twist.steps()
            + twist.steps() - 2 * ((piece.twist.steps() + twist.steps()) / 2),
{
    reveal(CubePiece::turned);
}

/// The total after one pass round a cycle: what the four pieces had is taken
/// off and what they have after the pass is put on, if the cycle lies in the
/// range; nothing changes if it lies outside.
pub proof fn lemma_total_cycled(
    pieces: Seq<CubePiece>,
    locations: Seq<CubePieceLocation>,
    twists: Seq<Twist>,
    from: int,
    to: int,
)
    requires
        pieces.len() == 20,
        0 <= from <= to <= 20,
        distinct_slots(locations),
        (from <= locations[0].index() < to && from <= locations[1].index() < to && from
            <= locations[2].index() < to && from <= locations[3].index() < to) || (!(from
            <= locations[0].index() < to) && !(from <= locations[1].index() < to) && !(from
            <= locations[2].index() < to) && !(from <= locations[3].index() < to)),
    ensures
        twist_total(cycled(pieces, locations, twists), from, to) == if from
            <= locations[0].index() < to {
            twist_total(pieces, from, to) - pieces[locations[0].index()].twist.steps()
                - pieces[locations[1].index()].twist.steps()
                - pieces[locations[2].index()].twist.steps()
                - pieces[locations[3].index()].twist.steps() + pieces[locations[0].index()].turned(
                twists[0],
            ).twist.steps() + pieces[locations[1].index()].turned(twists[1]).twist.steps()
                + pieces[locations[2].index()].turned(twists[2]).twist.steps()
                + pieces[locations[3].index()].turned(twists[3]).twist.steps()
        } else {
            twist_total(pieces, from, to)
        },
{
    reveal(cycled);
    lemma_distinct_places(locations);
    locations[0].lemma_index();
    locations[1].lemma_index();
    locations[2].lemma_index();
    locations[3].lemma_index();
    let a = locations[0].index();
    let b = locations[1].index();
    let c = locations[2].index();
    let d = locations[3].index();
    let pa = pieces[a].turned(twists[0]);
    let pb = pieces[b].turned(twists[1]);
    let pc = pieces[c].turned(twists[2]);
    let pd = pieces[d].turned(twists[3]);
    let s1 = pieces.update(b, pa);
    let s2 = s1.update(c, pb);
    let s3 = s2.update(d, pc);
    let s4 = s3.update(a, pd);
    lemma_total_update(pieces, from, to, b, pa);
    lemma_total_update(s1, from, to, c, pb);
    lemma_total_update(s2, from, to, d, pc);
    lemma_total_update(s3, from, to, a, pd);
    assert(s4 == cycled(pieces, locations, twists));
}

/// Growing a total by gains that add up to a multiple of `order`, and
/// shrinking it by a multiple of `order`, leaves it as it was up to a
/// multiple of `order`.
pub proof fn lemma_total_shift(order: int, total: int, gain: int, carry: int)
    requires
        order == 2 || order == 3,
        gain % order == 0,
    ensures
        (total + gain - order * carry) % order == total % order,
{
    if order == 2 {
        assert((total + gain - 2 * carry) % 2 == total % 2);
    } else {
        assert((total + gain - 3 * carry) % 3 == total % 3);
    }
}

/// One pass round a cycle of corner slots leaves the corner twists adding up
/// to the same, up to a multiple of three, and does not touch the edges.
pub proof fn lemma_corner_cycle_totals(
    pieces: Seq<CubePiece>,
    locations: Seq<CubePieceLocation>,
    twists: Seq<Twist>,
)
    requires
        pieces.len() == 20,
        distinct_slots(locations),
        twists.len() == 4,
        forall|k: int|
            0 <= k < 4 ==> (#[trigger] locations[k]).corner()
                && pieces[locations[k].index()].piece.corner(),
        (twists[0].steps() + twists[1].steps() + twists[2].steps() + twists[3].steps()) % 3 == 0,
    ensures
        corner_twist_total(cycled(pieces, locations, twists)) % 3 == corner_twist_total(pieces)
            % 3,
        edge_twist_total(cycled(pieces, locations, twists)) == edge_twist_total(pieces),
{
    lemma_distinct_places(locations);
    assert(locations[0].corner() && locations[1].corner() && locations[2].corner()
        && locations[3].corner());
    lemma_total_cycled(pieces, locations, twists, 0, 8);
    lemma_total_cycled(pieces, locations, twists, 8, 20);
    let p0 = pieces[locations[0].index()];
    let p1 = pieces[locations[1].index()];
    let p2 = pieces[locations[2].index()];
    let p3 = pieces[locations[3].index()];
    lemma_turned_steps(p0, twists[0]);
    lemma_turned_steps(p1, twists[1]);
    lemma_turned_steps(p2, twists[2]);
    lemma_turned_steps(p3, twists[3]);
    let b0 = p0.twist.steps() as int;
    let b1 = p1.twist.steps() as int;
    let b2 = p2.twist.steps() as int;
    let b3 = p3.twist.steps() as int;
    let g0 = twists[0].steps() as int;
    let g1 = twists[1].steps() as int;
    let g2 = twists[2].steps() as int;
    let g3 = twists[3].steps() as int;
    lemma_total_shift(
        3,
        corner_twist_total(pieces),
        g0 + g1 + g2 + g3,
        (b0 + g0) / 3 + (b1 + g1) / 3 + (b2 + g2) / 3 + (b3 + g3) / 3,
    );
}

/// One pass round a cycle of edge slots leaves the edge twists adding up to
/// the same, up to a multiple of two, and does not touch the corners.
pub proof fn lemma_edge_cycle_totals(
    pieces: Seq<CubePiece>,
    locations: Seq<CubePieceLocation>,
    twists: Seq<Twist>,
)
    requires
        pieces.len() == 20,
        distinct_slots(locations),
        twists.len() == 4,
        forall|k: int|
            0 <= k < 4 ==> (#[trigger] locations[k]).edge()
                && pieces[locations[k].index()].piece.edge(),
        (twists[0].steps() + twists[1].steps() + twists[2].steps() + twists[3].steps()) % 2 == 0,
    ensures
        corner_twist_total(cycled(pieces, locations, twists)) == corner_twist_total(pieces),
        edge_twist_total(cycled(pieces, locations, twists)) % 2 == edge_twist_total(pieces) % 2,
{
    lemma_distinct_places(locations);
    assert(locations[0].edge() && locations[1].edge() && locations[2].edge()
        && locations[3].edge());
    lemma_total_cycled(pieces, locations, twists, 0, 8);
    lemma_total_cycled(pieces, locations, twists, 8, 20);
    let p0 = pieces[locations[0].index()];
    let p1 = pieces[locations[1].index()];
    let p2 = pieces[locations[2].index()];
    let p3 = pieces[locations[3].index()];
    lemma_turned_steps(p0, twists[0]);
    lemma_turned_steps(p1, twists[1]);
    lemma_turned_steps(p2, twists[2]);
    lemma_turned_steps(p3, twists[3]);
    let b0 = p0.twist.steps() as int;
    let b1 = p1.twist.steps() as int;
    let b2 = p2.twist.steps() as int;
    let b3 = p3.twist.steps() as int;
    let g0 = twists[0].steps() as int;
    let g1 = twists[1].steps() as int;
    let g2 = twists[2].steps() as int;
    let g3 = twists[3].steps() as int;
    assert(p0.piece.edge() && p1.piece.edge() && p2.piece.edge() && p3.piece.edge());
    let a0 = p0.turned(twists[0]).twist.steps() as int;
    let a1 = p1.turned(twists[1]).twist.steps() as int;
    let a2 = p2.turned(twists[2]).twist.steps() as int;
    let a3 = p3.turned(twists[3]).twist.steps() as int;
    assert(a0 == b0 + g0 - 2 * ((b0 + g0) / 2));
    assert(a1 == b1 + g1 - 2 * ((b1 + g1) / 2));
    assert(a2 == b2 + g2 - 2 * ((b2 + g2) / 2));
    assert(a3 == b3 + g3 - 2 * ((b3 + g3) / 2));
    lemma_total_shift(
        2,
        edge_twist_total(pieces),
        g0 + g1 + g2 + g3,
        (b0 + g0) / 2 + (b1 + g1) / 2 + (b2 + g2) / 2 + (b3 + g3) / 2,
    );
}

/// A quarter turn leaves the corner twists adding up to the same, up to a
/// multiple of three, and the edge twists to the same, up to a multiple of
/// two.
pub proof fn lemma_quarter_turn_totals(pieces: Seq<CubePiece>, face: Face)
    requires
        well_formed(pieces),
    ensures
        corner_twist_total(quarter_turned(pieces, face)) % 3 == corner_twist_total(pieces) % 3,
        edge_twist_total(quarter_turned(pieces, face)) % 2 == edge_twist_total(pieces) % 2,
{
    let corners = corner_cycle(face);
    let edges = edge_cycle(face);
    let middle = cycled(pieces, corners, corner_twists(face));
    lemma_cycles(face);
    lemma_gains(face);
    lemma_cycled_pointwise(pieces, corners, corner_twists(face));
    assert forall|k: int| 0 <= k < 4 implies (#[trigger] corners[k]).corner()
        && pieces[corners[k].index()].piece.corner() by {
        assert(corners[k] == corner_slot(face, k));
        corners[k].lemma_index();
        assert(pieces[corners[k].index()].wf());
    }
    assert forall|k: int| 0 <= k < 4 implies (#[trigger] edges[k]).edge()
        && middle[edges[k].index()].piece.edge() by {
        assert(edges[k] == edge_slot(face, k));
        edges[k].lemma_index();
        assert(pieces[edges[k].index()].wf());
        assert(corners[0].corner() && corners[1].corner() && corners[2].corner()
            && corners[3].corner());
        assert(middle[edges[k].index()] == pieces[edges[k].index()]);
    }
    lemma_corner_cycle_totals(pieces, corners, corner_twists(face));
    lemma_edge_cycle_totals(middle, edges, edge_twists(face));
}

/// Two places have the same source only if they are one place.
pub proof fn lemma_source_injective(face: Face, i: int, j: int)
    requires
        0 <= i < 20,
        0 <= j < 20,
        source(face, i) == source(face, j),
    ensures
        i == j,
{
    lemma_cycles(face);
    lemma_sources(face);
    lemma_distinct_places(corner_cycle(face));
    lemma_distinct_places(edge_cycle(face));
    assert(corner_cycle(face)[0] == corner_slot(face, 0) && corner_cycle(face)[1] == corner_slot(
        face,
        1,
    ) && corner_cycle(face)[2] == corner_slot(face, 2) && corner_cycle(face)[3] == corner_slot(
        face,
        3,
    ));
    assert(edge_cycle(face)[0] == edge_slot(face, 0) && edge_cycle(face)[1] == edge_slot(face, 1)
        && edge_cycle(face)[2] == edge_slot(face, 2) && edge_cycle(face)[3] == edge_slot(face, 3));
    assert(corner_slot(face, 0).corner() && corner_slot(face, 1).corner() && corner_slot(
        face,
        2,
    ).corner() && corner_slot(face, 3).corner());
    assert(edge_slot(face, 0).edge() && edge_slot(face, 1).edge() && edge_slot(face, 2).edge()
        && edge_slot(face, 3).edge());
}

/// A quarter turn leaves no piece in two slots.
pub proof fn lemma_quarter_turn_distinct(pieces: Seq<CubePiece>, face: Face)
    requires
        pieces.len() == 20,
        distinct_pieces(pieces),
    ensures
        distinct_pieces(quarter_turned(pieces, face)),
{
    let after = quarter_turned(pieces, face);
    lemma_quarter_turn_pointwise(pieces, face);
    assert forall|i: int, j: int| 0 <= i < j < after.len() implies (#[trigger] after[i]).piece != (
    #[trigger] after[j]).piece by {
        let from_i = source(face, i);
        let from_j = source(face, j);
        lemma_source_kind(face, i);
        lemma_source_kind(face, j);
        assert(after[i] == arrival(pieces, face, i));
        assert(after[j] == arrival(pieces, face, j));
        pieces[from_i].lemma_turned_wf(crate::laws::gain(face, i));
        pieces[from_j].lemma_turned_wf(crate::laws::gain(face, j));
        assert(after[i].piece == pieces[from_i].piece);
        assert(after[j].piece == pieces[from_j].piece);
        if from_i == from_j {
            lemma_source_injective(face, i, j);
        } else if from_i < from_j {
            assert(pieces[from_i].piece != pieces[from_j].piece);
        } else {
            assert(pieces[from_j].piece != pieces[from_i].piece);
        }
    }
}

/// In a state with no piece in two slots, the corners and the edges are
/// arranged as permutations.
pub proof fn lemma_permutations(pieces: Seq<CubePiece>)
    requires
        well_formed(pieces),
        distinct_pieces(pieces),
    ensures
        is_permutation(corner_permutation(pieces)),
        is_permutation(edge_permutation(pieces)),
{
    let corners = corner_permutation(pieces);
    let edges = edge_permutation(pieces);
    assert forall|i: int| 0 <= i < corners.len() implies (#[trigger] corners[i]) < corners.len() by {
        assert(pieces[i].wf() && (pieces[i].piece.corner() <==> i < 8));
        pieces[i].piece.lemma_index();
    }
    assert forall|i: int, j: int| 0 <= i < j < corners.len() implies corners[i] != corners[j] by {
        assert(pieces[i].piece != pieces[j].piece);
        pieces[i].piece.lemma_index();
        pieces[j].piece.lemma_index();
    }
    assert forall|i: int| 0 <= i < edges.len() implies (#[trigger] edges[i]) < edges.len() by {
        assert(pieces[8 + i].wf() && (pieces[8 + i].piece.corner() <==> 8 + i < 8));
        pieces[8 + i].piece.lemma_index();
    }
    assert forall|i: int, j: int| 0 <= i < j < edges.len() implies edges[i] != edges[j] by {
        assert(pieces[8 + i].piece != pieces[8 + j].piece);
        assert(pieces[8 + i].wf() && (pieces[8 + i].piece.corner() <==> 8 + i < 8));
        assert(pieces[8 + j].wf() && (pieces[8 + j].piece.corner() <==> 8 + j < 8));
        pieces[8 + i].piece.lemma_index();
        pieces[8 + j].piece.lemma_index();
    }
}

/// The piece that a quarter turn leaves at a place is the piece of the
/// place's source.
pub proof fn lemma_quarter_turn_piece(pieces: Seq<CubePiece>, face: Face, i: int)
    requires
        pieces.len() == 20,
        0 <= i < 20,
    ensures
        0 <= source(face, i) < 20,
        quarter_turned(pieces, face)[i].piece == pieces[source(face, i)].piece,
{
    lemma_quarter_turn_pointwise(pieces, face);
    lemma_source_kind(face, i);
    assert(quarter_turned(pieces, face)[i] == arrival(pieces, face, i));
    pieces[source(face, i)].lemma_turned_wf(crate::laws::gain(face, i));
}

/// A quarter turn changes an even arrangement of the corners into an odd
/// one and back, and does the same to the edges.
pub proof fn lemma_quarter_turn_parity(pieces: Seq<CubePiece>, face: Face)
    requires
        well_formed(pieces),
        distinct_pieces(pieces),
    ensures
        is_even(corner_permutation(quarter_turned(pieces, face))) != is_even(
            corner_permutation(pieces),
        ),
        is_even(edge_permutation(quarter_turned(pieces, face))) != is_even(
            edge_permutation(pieces),
        ),
{
    let after = quarter_turned(pieces, face);
    lemma_permutations(pieces);
    lemma_cycles(face);
    lemma_sources(face);
    lemma_distinct_places(corner_cycle(face));
    lemma_distinct_places(edge_cycle(face));
    assert(corner_cycle(face)[0] == corner_slot(face, 0) && corner_cycle(face)[1] == corner_slot(
        face,
        1,
    ) && corner_cycle(face)[2] == corner_slot(face, 2) && corner_cycle(face)[3] == corner_slot(
        face,
        3,
    ));
    assert(edge_cycle(face)[0] == edge_slot(face, 0) && edge_cycle(face)[1] == edge_slot(face, 1)
        && edge_cycle(face)[2] == edge_slot(face, 2) && edge_cycle(face)[3] == edge_slot(face, 3));
    assert(corner_slot(face, 0).corner() && corner_slot(face, 1).corner() && corner_slot(
        face,
        2,
    ).corner() && corner_slot(face, 3).corner());
    assert(edge_slot(face, 0).edge() && edge_slot(face, 1).edge() && edge_slot(face, 2).edge()
        && edge_slot(face, 3).edge());
    let c0 = corner_slot(face, 0).index();
    let c1 = corner_slot(face, 1).index();
    let c2 = corner_slot(face, 2).index();
    let c3 = corner_slot(face, 3).index();
    let e0 = edge_slot(face, 0).index();
    let e1 = edge_slot(face, 1).index();
    let e2 = edge_slot(face, 2).index();
    let e3 = edge_slot(face, 3).index();
    let corners = corner_permutation(pieces);
    let corners_after = corner_permutation(after);
    assert forall|i: int| 0 <= i < 8 implies corners_after[i] == corners[source(face, i)] && 0
        <= source(face, i) < 8 by {
        lemma_quarter_turn_piece(pieces, face, i);
        lemma_source_kind(face, i);
    }
    lemma_four_cycle_parity(corners, corners_after, c0, c1, c2, c3);
    let edges = edge_permutation(pieces);
    let edges_after = edge_permutation(after);
    assert forall|i: int| 0 <= i < 12 implies edges_after[i] == edges[source(face, 8 + i) - 8] && 8
        <= source(face, 8 + i) < 20 by {
        lemma_quarter_turn_piece(pieces, face, 8 + i);
        lemma_source_kind(face, 8 + i);
    }
    lemma_four_cycle_parity(edges, edges_after, e0 - 8, e1 - 8, e2 - 8, e3 - 8);
}

/// A quarter turn of a face leads from one state that the turns can reach,
/// as far as the invariants tell, to another.
pub proof fn lemma_quarter_turn_valid(pieces: Seq<CubePiece>, face: Face)
    requires
        valid(pieces),
    ensures
        valid(quarter_turned(pieces, face)),
{
    lemma_quarter_turn_well_formed(pieces, face);
    lemma_quarter_turn_distinct(pieces, face);
    lemma_quarter_turn_totals(pieces, face);
    lemma_quarter_turn_parity(pieces, face);
}

/// Any number of quarter turns keeps the invariants.
pub proof fn lemma_turned_valid(pieces: Seq<CubePiece>, face: Face, count: nat)
    requires
        valid(pieces),
    ensures
        valid(turned(pieces, face, count)),
    decreases count,
{
    if count > 0 {
        lemma_turned_valid(pieces, face, (count - 1) as nat);
        lemma_quarter_turn_valid(turned(pieces, face, (count - 1) as nat), face);
    }
}

/// A move keeps the invariants.
pub proof fn lemma_moved_valid(pieces: Seq<CubePiece>, cube_move: CubeMove)
    requires
        valid(pieces),
    ensures
        valid(moved(pieces, cube_move)),
{
    lemma_turned_valid(pieces, cube_move.face(), cube_move.quarter_turns());
}

/// Moves keep the invariants.
pub proof fn lemma_moved_all_valid(pieces: Seq<CubePiece>, moves: Seq<CubeMove>)
    requires
        valid(pieces),
    ensures
        valid(moved_all(pieces, moves)),
    decreases moves.len(),
{
    if moves.len() > 0 {
        lemma_moved_all_valid(pieces, moves.drop_last());
        lemma_moved_valid(moved_all(pieces, moves.drop_last()), moves.last());
    }
}

/// The solved cube has the invariants.
pub proof fn lemma_solved_valid()
    ensures
        valid(solved_pieces()),
{
    let pieces = solved_pieces();
    assert forall|i: int| 0 <= i < 20 implies (#[trigger] pieces[i]).wf() && (
    pieces[i].piece.corner() <==> i < 8) by {
        CubePieceLocation::lemma_at(i);
    }
    assert forall|i: int, j: int| 0 <= i < j < pieces.len() implies (#[trigger] pieces[i]).piece
        != (#[trigger] pieces[j]).piece by {
        CubePieceLocation::lemma_at(i);
        CubePieceLocation::lemma_at(j);
    }
    assert(corner_twist_total(pieces) == 0) by {
        reveal_with_fuel(twist_total, 9);
    }
    assert(edge_twist_total(pieces) == 0) by {
        reveal_with_fuel(twist_total, 13);
    }
    let corners = corner_permutation(pieces);
    let edges = edge_permutation(pieces);
    assert forall|i: int| 0 <= i < 8 implies corners[i] == i by {
        CubePieceLocation::lemma_at(i);
    }
    assert forall|i: int| 0 <= i < 12 implies edges[i] == i by {
        CubePieceLocation::lemma_at(8 + i);
    }
    crate::permutations::lemma_sorted_is_even(corners);
    crate::permutations::lemma_sorted_is_even(edges);
}

/// Where every piece but one is untwisted, the twists add up to the twist
/// of that one.
proof fn lemma_total_of_one(pieces: Seq<CubePiece>, from: int, to: int, i: int)
    requires
        0 <= from <= to <= pieces.len(),
        forall|j: int| from <= j < to && j != i ==> (#[trigger] pieces[j]).twist == Twist::Solved,
    ensures
        twist_total(pieces, from, to) == if from <= i < to {
            pieces[i].twist.steps() as int
        } else {
            0
        },
    decreases to - from,
{
    if to > from {
        lemma_total_of_one(pieces, from, to - 1, i);
        if to - 1 != i {
            assert(pieces[to - 1].twist == Twist::Solved);
        }
    }
}

/// No state that turns of the faces can reach has a single piece out of
/// place or twisted: where every slot but one holds its own piece,
/// untwisted, that one does so too.
pub proof fn lemma_no_lone_defect(pieces: Seq<CubePiece>, i: int)
    requires
        valid(pieces),
        0 <= i < 20,
        forall|j: int|
            0 <= j < 20 && j != i ==> #[trigger] pieces[j] == CubePiece::home(
                CubePieceLocation::at(j),
            ),
    ensures
        pieces[i] == CubePiece::home(CubePieceLocation::at(i)),
{
    let piece = pieces[i];
    let k = piece.piece.index();
    piece.piece.lemma_index();
    assert(piece.wf() && (piece.piece.corner() <==> i < 8));
    if k != i {
        assert(pieces[k] == CubePiece::home(CubePieceLocation::at(k)));
        if k < i {
            assert(pieces[k].piece != pieces[i].piece);
        } else {
            assert(pieces[i].piece != pieces[k].piece);
        }
    }
    assert(piece.piece == CubePieceLocation::at(i));
    assert forall|j: int| 0 <= j < 20 && j != i implies (#[trigger] pieces[j]).twist
        == Twist::Solved by {
        assert(pieces[j] == CubePiece::home(CubePieceLocation::at(j)));
    }
    lemma_total_of_one(pieces, 0, 8, i);
    lemma_total_of_one(pieces, 8, 20, i);
}

} // verus!
