use crate::faces::Face;
use crate::location::CubePieceLocation;
use crate::moves::CubeMove;
use crate::piece::CubePiece;
use crate::twist::Twist;
use vstd::prelude::*;

verus! {

/// The corner slot at place `k` of the cycle of four that a clockwise
/// quarter turn of `face` carries round: the piece in each goes to the next,
/// the last to the first.
#[verifier::opaque]
pub open spec fn corner_slot(face: Face, k: int) -> CubePieceLocation {
    match face {
        Face::U => if k == 0 {
            CubePieceLocation::UFL
        } else if k == 1 {
            CubePieceLocation::ULB
        } else if k == 2 {
            CubePieceLocation::UBR
        } else {
            CubePieceLocation::URF
        },
        Face::R => if k == 0 {
            CubePieceLocation::URF
        } else if k == 1 {
            CubePieceLocation::UBR
        } else if k == 2 {
            CubePieceLocation::DRB
        } else {
            CubePieceLocation::DFR
        },
        Face::F => if k == 0 {
            CubePieceLocation::UFL
        } else if k == 1 {
            CubePieceLocation::URF
        } else if k == 2 {
            CubePieceLocation::DFR
        } else {
            CubePieceLocation::DLF
        },
        Face::D => if k == 0 {
            CubePieceLocation::DLF
        } else if k == 1 {
            CubePieceLocation::DFR
        } else if k == 2 {
            CubePieceLocation::DRB
        } else {
            CubePieceLocation::DBL
        },
        Face::L => if k == 0 {
            CubePieceLocation::ULB
        } else if k == 1 {
            CubePieceLocation::UFL
        } else if k == 2 {
            CubePieceLocation::DLF
        } else {
            CubePieceLocation::DBL
        },
        Face::B => if k == 0 {
            CubePieceLocation::UBR
        } else if k == 1 {
            CubePieceLocation::ULB
        } else if k == 2 {
            CubePieceLocation::DBL
        } else {
            CubePieceLocation::DRB
        },
    }
}

/// The edge slot at place `k` of the cycle of four that a clockwise quarter
/// turn of `face` carries round.
#[verifier::opaque]
pub open spec fn edge_slot(face: Face, k: int) -> CubePieceLocation {
    match face {
        Face::U => if k == 0 {
            CubePieceLocation::UF
        } else if k == 1 {
            CubePieceLocation::UL
        } else if k == 2 {
            CubePieceLocation::UB
        } else {
            CubePieceLocation::UR
        },
        Face::R => if k == 0 {
            CubePieceLocation::UR
        } else if k == 1 {
            CubePieceLocation::BR
        } else if k == 2 {
            CubePieceLocation::DR
        } else {
            CubePieceLocation::FR
        },
        Face::F => if k == 0 {
            CubePieceLocation::UF
        } else if k == 1 {
            CubePieceLocation::FR
        } else if k == 2 {
            CubePieceLocation::DF
        } else {
            CubePieceLocation::FL
        },
        Face::D => if k == 0 {
            CubePieceLocation::DF
        } else if k == 1 {
            CubePieceLocation::DR
        } else if k == 2 {
            CubePieceLocation::DB
        } else {
            CubePieceLocation::DL
        },
        Face::L => if k == 0 {
            CubePieceLocation::FL
        } else if k == 1 {
            CubePieceLocation::DL
        } else if k == 2 {
            CubePieceLocation::BL
        } else {
            CubePieceLocation::UL
        },
        Face::B => if k == 0 {
            CubePieceLocation::UB
        } else if k == 1 {
            CubePieceLocation::BL
        } else if k == 2 {
            CubePieceLocation::DB
        } else {
            CubePieceLocation::BR
        },
    }
}

/// The four corner slots that a clockwise quarter turn of `face` carries
/// round.
pub open spec fn corner_cycle(face: Face) -> Seq<CubePieceLocation> {
    Seq::new(4, |k: int| corner_slot(face, k))
}

/// The four edge slots that a clockwise quarter turn of `face` carries round.
pub open spec fn edge_cycle(face: Face) -> Seq<CubePieceLocation> {
    Seq::new(4, |k: int| edge_slot(face, k))
}

/// The twist that the corner leaving place `k` of its cycle gains on a
/// quarter turn of `face`: none on the U and D faces, alternately one and two
/// steps on the others.
#[verifier::opaque]
pub open spec fn corner_gain(face: Face, k: int) -> Twist {
    match face {
        Face::U | Face::D => Twist::Solved,
        _ => if k == 0 || k == 2 {
            Twist::Cw120
        } else {
            Twist::Cw240
        },
    }
}

/// The twist that an edge gains on a quarter turn of `face`: a flip on the F
/// and B faces, none on the others.
#[verifier::opaque]
pub open spec fn edge_gain(face: Face) -> Twist {
    match face {
        Face::F | Face::B => Twist::Cw120,
        _ => Twist::Solved,
    }
}

/// The twists that the four corners of the cycle gain, in the cycle's order.
pub open spec fn corner_twists(face: Face) -> Seq<Twist> {
    Seq::new(4, |k: int| corner_gain(face, k))
}

/// The twists that the four edges of the cycle gain, in the cycle's order.
pub open spec fn edge_twists(face: Face) -> Seq<Twist> {
    Seq::new(4, |k: int| edge_gain(face))
}

/// The pieces after one pass round a cycle of four slots: each slot but the
/// first receives the piece of the slot before it, and the first that of the
/// last, each turned by the twist that goes with the slot it leaves.
#[verifier::opaque]
pub open spec fn cycled(
    pieces: Seq<CubePiece>,
    locations: Seq<CubePieceLocation>,
    twists: Seq<Twist>,
) -> Seq<CubePiece> {
    pieces.update(locations[1].index(), pieces[locations[0].index()].turned(twists[0])).update(
        locations[2].index(),
        pieces[locations[1].index()].turned(twists[1]),
    ).update(locations[3].index(), pieces[locations[2].index()].turned(twists[2])).update(
        locations[0].index(),
        pieces[locations[3].index()].turned(twists[3]),
    )
}

/// The pieces when the first `steps` slots of a pass round a cycle have
/// received their piece.
pub open spec fn cycled_steps(
    pieces: Seq<CubePiece>,
    locations: Seq<CubePieceLocation>,
    twists: Seq<Twist>,
    steps: nat,
) -> Seq<CubePiece>
    decreases steps,
{
    if steps == 0 {
        pieces
    } else {
        cycled_steps(pieces, locations, twists, (steps - 1) as nat).update(
            locations[steps as int % 4].index(),
            pieces[locations[steps - 1].index()].turned(twists[steps - 1]),
        )
    }
}

/// The pieces after a clockwise quarter turn of `face`.
pub open spec fn quarter_turned(pieces: Seq<CubePiece>, face: Face) -> Seq<CubePiece> {
    cycled(
        cycled(pieces, corner_cycle(face), corner_twists(face)),
        edge_cycle(face),
        edge_twists(face),
    )
}

/// The pieces after `count` clockwise quarter turns of `face`.
pub open spec fn turned(pieces: Seq<CubePiece>, face: Face, count: nat) -> Seq<CubePiece>
    decreases count,
{
    if count == 0 {
        pieces
    } else {
        quarter_turned(turned(pieces, face, (count - 1) as nat), face)
    }
}

/// The pieces after `cube_move`.
pub open spec fn moved(pieces: Seq<CubePiece>, cube_move: CubeMove) -> Seq<CubePiece> {
    turned(pieces, cube_move.face(), cube_move.quarter_turns())
}

/// The pieces after the moves of `moves`, applied in order.
pub open spec fn moved_all(pieces: Seq<CubePiece>, moves: Seq<CubeMove>) -> Seq<CubePiece>
    decreases moves.len(),
{
    if moves.len() == 0 {
        pieces
    } else {
        moved(moved_all(pieces, moves.drop_last()), moves.last())
    }
}

/// The four slots are different.
pub open spec fn distinct_slots(locations: Seq<CubePieceLocation>) -> bool {
    &&& locations.len() == 4
    &&& locations[0] != locations[1]
    &&& locations[0] != locations[2]
    &&& locations[0] != locations[3]
    &&& locations[1] != locations[2]
    &&& locations[1] != locations[3]
    &&& locations[2] != locations[3]
}

/// The four places are different places among the twenty.
pub open spec fn distinct_places(locations: Seq<CubePieceLocation>) -> bool {
    &&& 0 <= locations[0].index() < 20
    &&& 0 <= locations[1].index() < 20
    &&& 0 <= locations[2].index() < 20
    &&& 0 <= locations[3].index() < 20
    &&& locations[0].index() != locations[1].index()
    &&& locations[0].index() != locations[2].index()
    &&& locations[0].index() != locations[3].index()
    &&& locations[1].index() != locations[2].index()
    &&& locations[1].index() != locations[3].index()
    &&& locations[2].index() != locations[3].index()
}

/// Different slots have different places.
pub proof fn lemma_distinct_places(locations: Seq<CubePieceLocation>)
    requires
        distinct_slots(locations),
    ensures
        distinct_places(locations),
{
    locations[0].lemma_index();
    locations[1].lemma_index();
    locations[2].lemma_index();
    locations[3].lemma_index();
}

/// The four corner slots that a clockwise quarter turn of `face` carries
/// round.
pub fn corner_cycle_of(face: Face) -> (locations: [CubePieceLocation; 4])
    ensures
        locations@ == corner_cycle(face),
        distinct_slots(locations@),
{
    let locations = match face {
        Face::U => [
            CubePieceLocation::UFL,
            CubePieceLocation::ULB,
            CubePieceLocation::UBR,
            CubePieceLocation::URF,
        ],
        Face::R => [
            CubePieceLocation::URF,
            CubePieceLocation::UBR,
            CubePieceLocation::DRB,
            CubePieceLocation::DFR,
        ],
        Face::F => [
            CubePieceLocation::UFL,
            CubePieceLocation::URF,
            CubePieceLocation::DFR,
            CubePieceLocation::DLF,
        ],
        Face::D => [
            CubePieceLocation::DLF,
            CubePieceLocation::DFR,
            CubePieceLocation::DRB,
            CubePieceLocation::DBL,
        ],
        Face::L => [
            CubePieceLocation::ULB,
            CubePieceLocation::UFL,
            CubePieceLocation::DLF,
            CubePieceLocation::DBL,
        ],
        Face::B => [
            CubePieceLocation::UBR,
            CubePieceLocation::ULB,
            CubePieceLocation::DBL,
            CubePieceLocation::DRB,
        ],
    };
    proof {
        reveal(corner_slot);
    }
    assert(locations@ =~= corner_cycle(face));
    locations
}

/// The four edge slots that a clockwise quarter turn of `face` carries round.
pub fn edge_cycle_of(face: Face) -> (locations: [CubePieceLocation; 4])
    ensures
        locations@ == edge_cycle(face),
        distinct_slots(locations@),
{
    let locations = match face {
        Face::U => [
            CubePieceLocation::UF,
            CubePieceLocation::UL,
            CubePieceLocation::UB,
            CubePieceLocation::UR,
        ],
        Face::R => [
            CubePieceLocation::UR,
            CubePieceLocation::BR,
            CubePieceLocation::DR,
            CubePieceLocation::FR,
        ],
        Face::F => [
            CubePieceLocation::UF,
            CubePieceLocation::FR,
            CubePieceLocation::DF,
            CubePieceLocation::FL,
        ],
        Face::D => [
            CubePieceLocation::DF,
            CubePieceLocation::DR,
            CubePieceLocation::DB,
            CubePieceLocation::DL,
        ],
        Face::L => [
            CubePieceLocation::FL,
            CubePieceLocation::DL,
            CubePieceLocation::BL,
            CubePieceLocation::UL,
        ],
        Face::B => [
            CubePieceLocation::UB,
            CubePieceLocation::BL,
            CubePieceLocation::DB,
            CubePieceLocation::BR,
        ],
    };
    proof {
        reveal(edge_slot);
    }
    assert(locations@ =~= edge_cycle(face));
    locations
}

/// The twists that the four corners of the cycle gain, in the cycle's order.
pub fn corner_twists_of(face: Face) -> (twists: [Twist; 4])
    ensures
        twists@ == corner_twists(face),
{
    let twists = match face {
        Face::U | Face::D => [Twist::Solved, Twist::Solved, Twist::Solved, Twist::Solved],
        _ => [Twist::Cw120, Twist::Cw240, Twist::Cw120, Twist::Cw240],
    };
    proof {
        reveal(corner_gain);
    }
    assert(twists@ =~= corner_twists(face));
    twists
}

/// The twists that the four edges of the cycle gain, in the cycle's order.
pub fn edge_twists_of(face: Face) -> (twists: [Twist; 4])
    ensures
        twists@ == edge_twists(face),
{
    let twists = match face {
        Face::F | Face::B => [Twist::Cw120, Twist::Cw120, Twist::Cw120, Twist::Cw120],
        _ => [Twist::Solved, Twist::Solved, Twist::Solved, Twist::Solved],
    };
    proof {
        reveal(edge_gain);
    }
    assert(twists@ =~= edge_twists(face));
    twists
}

} // verus!
