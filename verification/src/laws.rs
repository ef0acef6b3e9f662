use crate::cube::{solved_pieces, sticker_origin, well_formed};
use crate::stickers::CubeStickerLocation;
use crate::faces::Face;
use crate::moves::CubeMove;
use crate::piece::CubePiece;
use crate::location::CubePieceLocation;
use crate::turns::{
    corner_cycle, corner_gain, corner_slot, corner_twists, cycled, distinct_slots, edge_cycle,
    edge_gain, edge_slot, edge_twists, lemma_distinct_places, moved, moved_all, quarter_turned,
    turned,
};
use crate::twist::Twist;
use vstd::prelude::*;

verus! {

/// The moves that undo `moves`: the inverse of each, last move first.
pub open spec fn inverse_sequence(moves: Seq<CubeMove>) -> Seq<CubeMove> {
    Seq::new(moves.len(), |i: int| moves[moves.len() - 1 - i].inverse())
}

/// The place from which a quarter turn of `face` brings the piece that it
/// leaves at place `i`.
#[verifier::opaque]
pub open spec fn source(face: Face, i: int) -> int {
    if i == corner_slot(face, 0).index() {
        corner_slot(face, 3).index()
    } else if i == corner_slot(face, 1).index() {
        corner_slot(face, 0).index()
    } else if i == corner_slot(face, 2).index() {
        corner_slot(face, 1).index()
    } else if i == corner_slot(face, 3).index() {
        corner_slot(face, 2).index()
    } else if i == edge_slot(face, 0).index() {
        edge_slot(face, 3).index()
    } else if i == edge_slot(face, 1).index() {
        edge_slot(face, 0).index()
    } else if i == edge_slot(face, 2).index() {
        edge_slot(face, 1).index()
    } else if i == edge_slot(face, 3).index() {
        edge_slot(face, 2).index()
    } else {
        i
    }
}

/// The twist that the piece left at place `i` by a quarter turn of `face`
/// has gained on the way.
#[verifier::opaque]
pub open spec fn gain(face: Face, i: int) -> Twist {
    if i == corner_slot(face, 0).index() {
        corner_gain(face, 3)
    } else if i == corner_slot(face, 1).index() {
        corner_gain(face, 0)
    } else if i == corner_slot(face, 2).index() {
        corner_gain(face, 1)
    } else if i == corner_slot(face, 3).index() {
        corner_gain(face, 2)
    } else if i == edge_slot(face, 0).index() || i == edge_slot(face, 1).index() || i == edge_slot(
        face,
        2,
    ).index() || i == edge_slot(face, 3).index() {
        edge_gain(face)
    } else {
        Twist::Solved
    }
}

/// Whether a quarter turn of `face` moves the piece at place `i`.
pub open spec fn turns_place(face: Face, i: int) -> bool {
    source(face, i) != i
}

/// What a quarter turn of `face` leaves at place `i`: the piece of the
/// source, turned by the twist gained on the way, or the piece that was
/// there.
pub open spec fn arrival(pieces: Seq<CubePiece>, face: Face, i: int) -> CubePiece {
    if turns_place(face, i) {
        pieces[source(face, i)].turned(gain(face, i))
    } else {
        pieces[i]
    }
}

/// The cycles of a face are made of four different corner slots and four
/// different edge slots.
pub proof fn lemma_cycles(face: Face)
    ensures
        distinct_slots(corner_cycle(face)),
        distinct_slots(edge_cycle(face)),
        forall|k: int| 0 <= k < 4 ==> (#[trigger] corner_slot(face, k)).corner(),
        forall|k: int| 0 <= k < 4 ==> (#[trigger] edge_slot(face, k)).edge(),
{
    reveal(corner_slot);
    reveal(edge_slot);
    reveal(CubePieceLocation::index);
}

/// The source of each slot of a cycle is the slot before it, the source of
/// any other place is the place itself, and the twist gained is the one that
/// goes with the source.
pub proof fn lemma_sources(face: Face)
    ensures
        source(face, corner_slot(face, 0).index()) == corner_slot(face, 3).index(),
        gain(face, corner_slot(face, 0).index()) == corner_gain(face, 3),
        source(face, corner_slot(face, 1).index()) == corner_slot(face, 0).index(),
        gain(face, corner_slot(face, 1).index()) == corner_gain(face, 0),
        source(face, corner_slot(face, 2).index()) == corner_slot(face, 1).index(),
        gain(face, corner_slot(face, 2).index()) == corner_gain(face, 1),
        source(face, corner_slot(face, 3).index()) == corner_slot(face, 2).index(),
        gain(face, corner_slot(face, 3).index()) == corner_gain(face, 2),
        source(face, edge_slot(face, 0).index()) == edge_slot(face, 3).index(),
        gain(face, edge_slot(face, 0).index()) == edge_gain(face),
        source(face, edge_slot(face, 1).index()) == edge_slot(face, 0).index(),
        gain(face, edge_slot(face, 1).index()) == edge_gain(face),
        source(face, edge_slot(face, 2).index()) == edge_slot(face, 1).index(),
        gain(face, edge_slot(face, 2).index()) == edge_gain(face),
        source(face, edge_slot(face, 3).index()) == edge_slot(face, 2).index(),
        gain(face, edge_slot(face, 3).index()) == edge_gain(face),
        forall|i: int|
            i != corner_slot(face, 0).index() && i != corner_slot(face, 1).index() && i
                != corner_slot(face, 2).index() && i != corner_slot(face, 3).index() && i
                != edge_slot(face, 0).index() && i != edge_slot(face, 1).index() && i != edge_slot(
                face,
                2,
            ).index() && i != edge_slot(face, 3).index() ==> #[trigger] source(face, i) == i,
{
    reveal(source);
    reveal(gain);
    lemma_cycles(face);
    lemma_distinct_places(corner_cycle(face));
    lemma_distinct_places(edge_cycle(face));
    assert(corner_cycle(face)[0] == corner_slot(face, 0));
    assert(corner_cycle(face)[1] == corner_slot(face, 1));
    assert(corner_cycle(face)[2] == corner_slot(face, 2));
    assert(corner_cycle(face)[3] == corner_slot(face, 3));
    assert(edge_cycle(face)[0] == edge_slot(face, 0));
    assert(edge_cycle(face)[1] == edge_slot(face, 1));
    assert(edge_cycle(face)[2] == edge_slot(face, 2));
    assert(edge_cycle(face)[3] == edge_slot(face, 3));
    assert(corner_slot(face, 0).corner() && corner_slot(face, 1).corner() && corner_slot(
        face,
        2,
    ).corner() && corner_slot(face, 3).corner());
    assert(edge_slot(face, 0).edge() && edge_slot(face, 1).edge() && edge_slot(face, 2).edge()
        && edge_slot(face, 3).edge());
}

/// One pass round a cycle, slot by slot.
pub proof fn lemma_cycled_pointwise(
    pieces: Seq<CubePiece>,
    locations: Seq<CubePieceLocation>,
    twists: Seq<Twist>,
)
    requires
        pieces.len() == 20,
        distinct_slots(locations),
    ensures
        cycled(pieces, locations, twists).len() == 20,
        forall|i: int|
            0 <= i < 20 ==> #[trigger] cycled(pieces, locations, twists)[i] == if i
                == locations[0].index() {
                pieces[locations[3].index()].turned(twists[3])
            } else if i == locations[1].index() {
                pieces[locations[0].index()].turned(twists[0])
            } else if i == locations[2].index() {
                pieces[locations[1].index()].turned(twists[1])
            } else if i == locations[3].index() {
                pieces[locations[2].index()].turned(twists[2])
            } else {
                pieces[i]
            },
{
    reveal(cycled);
    lemma_distinct_places(locations);
    locations[0].lemma_index();
    locations[1].lemma_index();
    locations[2].lemma_index();
    locations[3].lemma_index();
}

/// A quarter turn, slot by slot.
pub proof fn lemma_quarter_turn_pointwise(pieces: Seq<CubePiece>, face: Face)
    requires
        pieces.len() == 20,
    ensures
        quarter_turned(pieces, face).len() == 20,
        forall|i: int|
            0 <= i < 20 ==> #[trigger] quarter_turned(pieces, face)[i] == arrival(pieces, face, i),
{
    reveal(source);
    reveal(gain);
    let corners = corner_cycle(face);
    let edges = edge_cycle(face);
    let middle = cycled(pieces, corners, corner_twists(face));
    let after = cycled(middle, edges, edge_twists(face));
    lemma_cycles(face);
    lemma_distinct_places(corners);
    lemma_distinct_places(edges);
    lemma_cycled_pointwise(pieces, corners, corner_twists(face));
    lemma_cycled_pointwise(middle, edges, edge_twists(face));
    assert(corner_slot(face, 0).corner() && corner_slot(face, 1).corner() && corner_slot(
        face,
        2,
    ).corner() && corner_slot(face, 3).corner());
    assert(edge_slot(face, 0).edge() && edge_slot(face, 1).edge() && edge_slot(face, 2).edge()
        && edge_slot(face, 3).edge());
    assert forall|i: int| 0 <= i < 20 implies #[trigger] after[i] == arrival(pieces, face, i) by {
        assert(middle[i] == cycled(pieces, corners, corner_twists(face))[i]);
    }
}

/// Turning a piece twice is turning it once by the sum of the two twists:
/// the steps of a corner add up modulo three, those of an edge modulo two.
pub proof fn lemma_turned_twice(piece: CubePiece, first: Twist, second: Twist)
    ensures
        piece.turned(first).turned(second).piece == piece.piece,
        piece.piece.corner() ==> piece.turned(first).turned(second).twist.steps() == (
        piece.twist.steps() + first.steps() + second.steps()) % 3,
        piece.piece.edge() ==> piece.turned(first).turned(second).twist.steps() == (
        piece.twist.steps() + first.steps() + second.steps()) % 2,
{
    reveal(CubePiece::turned);
}

/// Adding, modulo two or three, two numbers whose sum is a multiple of the
/// modulus changes nothing.
proof fn lemma_round_sum(start: int, first: int, second: int, order: int)
    requires
        order == 2 || order == 3,
        0 <= start < order,
        0 <= first,
        0 <= second,
        (first + second) % order == 0,
    ensures
        ((start + first) % order + second) % order == start,
{
    if order == 2 {
        assert(((start + first) % 2 + second) % 2 == start);
    } else {
        assert(((start + first) % 3 + second) % 3 == start);
    }
}

/// Four twists that add up to nothing leave a piece as it was.
#[verifier::rlimit(50)]
pub proof fn lemma_turned_four(piece: CubePiece, a: Twist, b: Twist, c: Twist, d: Twist)
    requires
        piece.wf(),
        piece.piece.corner() ==> (a.steps() + b.steps() + c.steps() + d.steps()) % 3 == 0,
        piece.piece.edge() ==> (a.steps() + b.steps() + c.steps() + d.steps()) % 2 == 0,
    ensures
        piece.turned(a).turned(b).turned(c).turned(d) == piece,
{
    let half = piece.turned(a).turned(b);
    let whole = half.turned(c).turned(d);
    lemma_turned_twice(piece, a, b);
    lemma_turned_twice(half, c, d);
    piece.piece.lemma_index();
    let start = piece.twist.steps() as int;
    let first = (a.steps() + b.steps()) as int;
    let second = (c.steps() + d.steps()) as int;
    if piece.piece.corner() {
        lemma_round_sum(start, first, second, 3);
    } else {
        lemma_round_sum(start, first, second, 2);
    }
    assert(whole.twist.steps() == piece.twist.steps());
    assert(whole.twist == piece.twist);
}

/// The twists that the four pieces of a cycle gain add up to nothing.
pub proof fn lemma_gains(face: Face)
    ensures
        (corner_gain(face, 0).steps() + corner_gain(face, 1).steps() + corner_gain(face, 2).steps()
            + corner_gain(face, 3).steps()) % 3 == 0,
        (4 * edge_gain(face).steps()) % 2 == 0,
        edge_gain(face).is_edge_twist(),
{
    reveal(corner_gain);
    reveal(edge_gain);
}

/// A piece that four quarter turns carry through four places, with twists
/// that add up to nothing, ends where it began and as it was.
proof fn lemma_round_trip(
    pieces: Seq<CubePiece>,
    face: Face,
    a: int,
    b: int,
    c: int,
    d: int,
    ga: Twist,
    gb: Twist,
    gc: Twist,
    gd: Twist,
)
    requires
        well_formed(pieces),
        0 <= a < 20,
        0 <= b < 20,
        0 <= c < 20,
        0 <= d < 20,
        source(face, b) == a && b != a && gain(face, b) == ga,
        source(face, c) == b && c != b && gain(face, c) == gb,
        source(face, d) == c && d != c && gain(face, d) == gc,
        source(face, a) == d && a != d && gain(face, a) == gd,
        pieces[a].piece.corner() ==> (ga.steps() + gb.steps() + gc.steps() + gd.steps()) % 3 == 0,
        pieces[a].piece.edge() ==> (ga.steps() + gb.steps() + gc.steps() + gd.steps()) % 2 == 0,
    ensures
        quarter_turned(
            quarter_turned(quarter_turned(quarter_turned(pieces, face), face), face),
            face,
        )[a] == pieces[a],
{
    let s1 = quarter_turned(pieces, face);
    let s2 = quarter_turned(s1, face);
    let s3 = quarter_turned(s2, face);
    let s4 = quarter_turned(s3, face);
    lemma_quarter_turn_pointwise(pieces, face);
    lemma_quarter_turn_pointwise(s1, face);
    lemma_quarter_turn_pointwise(s2, face);
    lemma_quarter_turn_pointwise(s3, face);
    assert(s4[a] == arrival(s3, face, a));
    assert(s3[d] == arrival(s2, face, d));
    assert(s2[c] == arrival(s1, face, c));
    assert(s1[b] == arrival(pieces, face, b));
    assert(pieces[a].wf());
    lemma_turned_four(pieces[a], ga, gb, gc, gd);
}

/// A place that a quarter turn does not touch keeps its piece through four
/// of them.
proof fn lemma_untouched(pieces: Seq<CubePiece>, face: Face, i: int)
    requires
        pieces.len() == 20,
        0 <= i < 20,
        source(face, i) == i,
    ensures
        quarter_turned(
            quarter_turned(quarter_turned(quarter_turned(pieces, face), face), face),
            face,
        )[i] == pieces[i],
{
    let s1 = quarter_turned(pieces, face);
    let s2 = quarter_turned(s1, face);
    let s3 = quarter_turned(s2, face);
    let s4 = quarter_turned(s3, face);
    lemma_quarter_turn_pointwise(pieces, face);
    lemma_quarter_turn_pointwise(s1, face);
    lemma_quarter_turn_pointwise(s2, face);
    lemma_quarter_turn_pointwise(s3, face);
    assert(s4[i] == arrival(s3, face, i));
    assert(s3[i] == arrival(s2, face, i));
    assert(s2[i] == arrival(s1, face, i));
    assert(s1[i] == arrival(pieces, face, i));
}

/// Four quarter turns of one face bring the piece of every place back as it
/// was.
pub proof fn lemma_place_restored(pieces: Seq<CubePiece>, face: Face, i: int)
    requires
        well_formed(pieces),
        0 <= i < 20,
    ensures
        quarter_turned(
            quarter_turned(quarter_turned(quarter_turned(pieces, face), face), face),
            face,
        )[i] == pieces[i],
{
    lemma_cycles(face);
    lemma_gains(face);
    lemma_sources(face);
    let c0 = corner_slot(face, 0).index();
    let c1 = corner_slot(face, 1).index();
    let c2 = corner_slot(face, 2).index();
    let c3 = corner_slot(face, 3).index();
    let e0 = edge_slot(face, 0).index();
    let e1 = edge_slot(face, 1).index();
    let e2 = edge_slot(face, 2).index();
    let e3 = edge_slot(face, 3).index();
    let g0 = corner_gain(face, 0);
    let g1 = corner_gain(face, 1);
    let g2 = corner_gain(face, 2);
    let g3 = corner_gain(face, 3);
    let g = edge_gain(face);
    lemma_distinct_places(corner_cycle(face));
    lemma_distinct_places(edge_cycle(face));
    assert(corner_cycle(face)[0] == corner_slot(face, 0) && corner_cycle(face)[1] == corner_slot(
        face,
        1,
    ) && corner_cycle(face)[2] == corner_slot(face, 2) && corner_cycle(face)[3] == corner_slot(
        face,
        3,
    ));
    assert(edge_cycle(face)[0] == edge_slot(face, 0) && edge_cycle(face)[1] == edge_slot(face, 1)
        && edge_cycle(face)[2] == edge_slot(face, 2) && edge_cycle(face)[3] == edge_slot(face, 3));
    assert(corner_slot(face, 0).corner() && corner_slot(face, 1).corner() && corner_slot(
        face,
        2,
    ).corner() && corner_slot(face, 3).corner());
    assert(edge_slot(face, 0).edge() && edge_slot(face, 1).edge() && edge_slot(face, 2).edge()
        && edge_slot(face, 3).edge());
    assert(pieces[i].wf() && (pieces[i].piece.corner() <==> i < 8));
    if i == c0 {
        lemma_round_trip(pieces, face, c0, c1, c2, c3, g0, g1, g2, g3);
    } else if i == c1 {
        lemma_round_trip(pieces, face, c1, c2, c3, c0, g1, g2, g3, g0);
    } else if i == c2 {
        lemma_round_trip(pieces, face, c2, c3, c0, c1, g2, g3, g0, g1);
    } else if i == c3 {
        lemma_round_trip(pieces, face, c3, c0, c1, c2, g3, g0, g1, g2);
    } else if i == e0 {
        lemma_round_trip(pieces, face, e0, e1, e2, e3, g, g, g, g);
    } else if i == e1 {
        lemma_round_trip(pieces, face, e1, e2, e3, e0, g, g, g, g);
    } else if i == e2 {
        lemma_round_trip(pieces, face, e2, e3, e0, e1, g, g, g, g);
    } else if i == e3 {
        lemma_round_trip(pieces, face, e3, e0, e1, e2, g, g, g, g);
    } else {
        lemma_untouched(pieces, face, i);
    }
}

/// Four quarter turns of one face bring every piece back as it was.
pub proof fn lemma_four_quarter_turns(pieces: Seq<CubePiece>, face: Face)
    requires
        well_formed(pieces),
    ensures
        turned(pieces, face, 4) == pieces,
{
    let s1 = quarter_turned(pieces, face);
    let s2 = quarter_turned(s1, face);
    let s3 = quarter_turned(s2, face);
    let s4 = quarter_turned(s3, face);
    assert(s4 == turned(pieces, face, 4)) by {
        reveal_with_fuel(turned, 5);
    }
    lemma_quarter_turn_pointwise(pieces, face);
    lemma_quarter_turn_pointwise(s1, face);
    lemma_quarter_turn_pointwise(s2, face);
    lemma_quarter_turn_pointwise(s3, face);
    assert forall|i: int| 0 <= i < 20 implies s4[i] == pieces[i] by {
        lemma_place_restored(pieces, face, i);
    }
    assert(s4 =~= pieces);
}

/// A quarter turn keeps every corner in a corner slot and every edge in an
/// edge slot, with a twist of its kind.
pub proof fn lemma_quarter_turn_well_formed(pieces: Seq<CubePiece>, face: Face)
    requires
        well_formed(pieces),
    ensures
        well_formed(quarter_turned(pieces, face)),
{
    let after = quarter_turned(pieces, face);
    lemma_quarter_turn_pointwise(pieces, face);
    lemma_cycles(face);
    lemma_sources(face);
    assert forall|i: int| 0 <= i < 20 implies (#[trigger] after[i]).wf() && (
    after[i].piece.corner() <==> i < 8) by {
        let from = source(face, i);
        assert(after[i] == arrival(pieces, face, i));
        assert(pieces[i].wf() && (pieces[i].piece.corner() <==> i < 8));
        if from != i {
            assert(0 <= from < 20 && (from < 8 <==> i < 8)) by {
                lemma_source_kind(face, i);
            }
            assert(pieces[from].wf() && (pieces[from].piece.corner() <==> from < 8));
            pieces[from].lemma_turned_wf(gain(face, i));
        }
    }
}

/// The source of a place is a place of the same kind.
pub proof fn lemma_source_kind(face: Face, i: int)
    requires
        0 <= i < 20,
    ensures
        0 <= source(face, i) < 20,
        source(face, i) < 8 <==> i < 8,
{
    lemma_cycles(face);
    lemma_sources(face);
    assert(corner_slot(face, 0).corner() && corner_slot(face, 1).corner() && corner_slot(
        face,
        2,
    ).corner() && corner_slot(face, 3).corner());
    assert(edge_slot(face, 0).edge() && edge_slot(face, 1).edge() && edge_slot(face, 2).edge()
        && edge_slot(face, 3).edge());
    corner_slot(face, 0).lemma_index();
    corner_slot(face, 1).lemma_index();
    corner_slot(face, 2).lemma_index();
    corner_slot(face, 3).lemma_index();
    edge_slot(face, 0).lemma_index();
    edge_slot(face, 1).lemma_index();
    edge_slot(face, 2).lemma_index();
    edge_slot(face, 3).lemma_index();
}

/// Any number of quarter turns keeps the pieces well formed.
pub proof fn lemma_turned_well_formed(pieces: Seq<CubePiece>, face: Face, count: nat)
    requires
        well_formed(pieces),
    ensures
        well_formed(turned(pieces, face, count)),
    decreases count,
{
    if count > 0 {
        lemma_turned_well_formed(pieces, face, (count - 1) as nat);
        lemma_quarter_turn_well_formed(turned(pieces, face, (count - 1) as nat), face);
    }
}

/// Quarter turns of one face add up.
pub proof fn lemma_turned_sum(pieces: Seq<CubePiece>, face: Face, first: nat, second: nat)
    ensures
        turned(turned(pieces, face, first), face, second) == turned(pieces, face, first + second),
    decreases second,
{
    if second > 0 {
        lemma_turned_sum(pieces, face, first, (second - 1) as nat);
        assert(first + second - 1 == first + (second - 1) as nat);
    }
}

/// A move keeps the pieces well formed.
pub proof fn lemma_moved_well_formed(pieces: Seq<CubePiece>, cube_move: CubeMove)
    requires
        well_formed(pieces),
    ensures
        well_formed(moved(pieces, cube_move)),
{
    lemma_turned_well_formed(pieces, cube_move.face(), cube_move.quarter_turns());
}

/// Moves keep the pieces well formed.
pub proof fn lemma_moved_all_well_formed(pieces: Seq<CubePiece>, moves: Seq<CubeMove>)
    requires
        well_formed(pieces),
    ensures
        well_formed(moved_all(pieces, moves)),
    decreases moves.len(),
{
    if moves.len() > 0 {
        lemma_moved_all_well_formed(pieces, moves.drop_last());
        lemma_moved_well_formed(moved_all(pieces, moves.drop_last()), moves.last());
    }
}

/// Applying one sequence of moves and then another is applying the two, one
/// after the other, as one sequence.
pub proof fn lemma_moved_all_concat(
    pieces: Seq<CubePiece>,
    first: Seq<CubeMove>,
    second: Seq<CubeMove>,
)
    ensures
        moved_all(moved_all(pieces, first), second) == moved_all(pieces, first + second),
    decreases second.len(),
{
    if second.len() == 0 {
        assert(first + second =~= first);
    } else {
        lemma_moved_all_concat(pieces, first, second.drop_last());
        assert((first + second).drop_last() =~= first + second.drop_last());
        assert((first + second).last() == second.last());
    }
}

/// A move followed by its inverse leaves the pieces as they were.
pub proof fn lemma_move_then_inverse(pieces: Seq<CubePiece>, cube_move: CubeMove)
    requires
        well_formed(pieces),
    ensures
        moved(moved(pieces, cube_move), cube_move.inverse()) == pieces,
{
    cube_move.lemma_inverse();
    lemma_turned_sum(
        pieces,
        cube_move.face(),
        cube_move.quarter_turns(),
        cube_move.inverse().quarter_turns(),
    );
    lemma_four_quarter_turns(pieces, cube_move.face());
}

/// Applying a sequence of moves and then its inverse sequence restores the
/// pieces.
pub proof fn lemma_moves_then_inverse(pieces: Seq<CubePiece>, moves: Seq<CubeMove>)
    requires
        well_formed(pieces),
    ensures
        moved_all(moved_all(pieces, moves), inverse_sequence(moves)) == pieces,
    decreases moves.len(),
{
    let undo = inverse_sequence(moves);
    if moves.len() == 0 {
        assert(undo =~= Seq::<CubeMove>::empty());
    } else {
        let head = moves.drop_last();
        let last = moves.last();
        let middle = moved_all(pieces, head);
        // The inverse sequence starts by undoing the last move.
        assert(undo =~= seq![last.inverse()] + inverse_sequence(head));
        lemma_moved_all_concat(moved_all(pieces, moves), seq![last.inverse()], inverse_sequence(head));
        assert(moved_all(moved_all(pieces, moves), seq![last.inverse()]) == moved(
            moved_all(pieces, moves),
            last.inverse(),
        )) by {
            let one = seq![last.inverse()];
            assert(one.drop_last() =~= Seq::<CubeMove>::empty());
            assert(moved_all(moved_all(pieces, moves), one.drop_last()) == moved_all(pieces, moves));
        }
        lemma_moved_all_well_formed(pieces, head);
        lemma_move_then_inverse(middle, last);
        lemma_moves_then_inverse(pieces, head);
    }
}

/// Any move applied four times leaves the pieces as they were.
pub proof fn lemma_move_four_times(pieces: Seq<CubePiece>, cube_move: CubeMove)
    requires
        well_formed(pieces),
    ensures
        moved_all(pieces, seq![cube_move, cube_move, cube_move, cube_move]) == pieces,
{
    let face = cube_move.face();
    let n = cube_move.quarter_turns();
    let four = seq![cube_move, cube_move, cube_move, cube_move];
    let s1 = moved(pieces, cube_move);
    let s2 = moved(s1, cube_move);
    let s3 = moved(s2, cube_move);
    let s4 = moved(s3, cube_move);
    assert(moved_all(pieces, four) == s4) by {
        reveal_with_fuel(moved_all, 5);
        assert(four.drop_last() =~= seq![cube_move, cube_move, cube_move]);
        assert(four.drop_last().drop_last() =~= seq![cube_move, cube_move]);
        assert(four.drop_last().drop_last().drop_last() =~= seq![cube_move]);
        assert(four.drop_last().drop_last().drop_last().drop_last() =~= Seq::<CubeMove>::empty());
    }
    lemma_turned_sum(pieces, face, n, n);
    lemma_turned_sum(pieces, face, n + n, n);
    lemma_turned_sum(pieces, face, n + n + n, n);
    assert(s4 == turned(pieces, face, 4 * n));
    lemma_turned_sum(pieces, face, 4, 4);
    lemma_turned_sum(pieces, face, 8, 4);
    lemma_four_quarter_turns(pieces, face);
}

/// A half turn applied twice leaves the pieces as they were.
pub proof fn lemma_half_turn_twice(pieces: Seq<CubePiece>, cube_move: CubeMove)
    requires
        well_formed(pieces),
        cube_move.quarter_turns() == 2,
    ensures
        moved_all(pieces, seq![cube_move, cube_move]) == pieces,
{
    let two = seq![cube_move, cube_move];
    assert(moved_all(pieces, two) == moved(moved(pieces, cube_move), cube_move)) by {
        reveal_with_fuel(moved_all, 3);
        assert(two.drop_last() =~= seq![cube_move]);
        assert(two.drop_last().drop_last() =~= Seq::<CubeMove>::empty());
    }
    lemma_turned_sum(pieces, cube_move.face(), 2, 2);
    lemma_four_quarter_turns(pieces, cube_move.face());
}

/// On the solved cube every facelet shows itself.
pub proof fn lemma_solved_origin(sticker: CubeStickerLocation)
    requires
        sticker.wf(),
    ensures
        sticker_origin(solved_pieces(), sticker) == sticker,
{
    sticker.piece_location.lemma_index();
}

/// The facelet that shows at a facelet of a corner slot is a facelet of a
/// corner, and the facelet that shows at a facelet of an edge slot is one of
/// the two facelets of an edge.
pub proof fn lemma_origin_of_kind(pieces: Seq<CubePiece>, sticker: CubeStickerLocation)
    requires
        well_formed(pieces),
    ensures
        sticker_origin(pieces, sticker).piece_location.corner()
            == sticker.piece_location.corner(),
        sticker_origin(pieces, sticker).wf(),
{
    sticker.piece_location.lemma_index();
    let piece = pieces[sticker.piece_location.index()];
    assert(piece.wf() && (piece.piece.corner() <==> sticker.piece_location.index() < 8));
    piece.piece.lemma_index();
}

/// The facelet that shows at a place tells which facelet shows at the other
/// places of the slot: one step further round the slot shows the facelet one
/// step further round the piece.
pub proof fn lemma_origin_turns(
    pieces: Seq<CubePiece>,
    sticker: CubeStickerLocation,
    twist: Twist,
)
    requires
        well_formed(pieces),
        sticker.wf(),
        sticker.piece_location.edge() ==> twist.is_edge_twist(),
    ensures
        sticker_origin(pieces, sticker.turned(twist)) == sticker_origin(pieces, sticker).turned(
            twist,
        ),
{
    sticker.piece_location.lemma_index();
    let piece = pieces[sticker.piece_location.index()];
    assert(piece.wf() && (piece.piece.corner() <==> sticker.piece_location.index() < 8));
    piece.piece.lemma_index();
}

} // verus!
