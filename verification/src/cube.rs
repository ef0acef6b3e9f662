use crate::faces::Face;
use crate::invariants::{lemma_quarter_turn_valid, lemma_solved_valid, valid};
use crate::location::CubePieceLocation;
pub use crate::moves::CubeMove;
use crate::piece::CubePiece;
use crate::stickers::CubeStickerLocation;
use crate::turns::{
    corner_cycle_of, corner_twists_of, cycled, cycled_steps, distinct_places, distinct_slots,
    edge_cycle_of, edge_twists_of, lemma_distinct_places, moved, moved_all, quarter_turned, turned,
};
use crate::twist::Twist;
use vstd::prelude::*;

verus! {

/// The pieces of the solved cube: every slot holds its own piece, untwisted.
pub open spec fn solved_pieces() -> Seq<CubePiece> {
    Seq::new(20, |i: int| CubePiece::home(CubePieceLocation::at(i)))
}

/// Every corner slot holds a corner and every edge slot an edge, and no edge
/// has a twist that only a corner can have.
pub open spec fn well_formed(pieces: Seq<CubePiece>) -> bool {
    &&& pieces.len() == 20
    &&& forall|i: int|
        0 <= i < 20 ==> (#[trigger] pieces[i]).wf() && (pieces[i].piece.corner() <==> i < 8)
}

/// The facelet of the solved cube that shows at `sticker`: the piece in the
/// sticker's slot tells the slot it came from, and its twist is taken off
/// the sticker's to find the facelet on that piece.
pub open spec fn sticker_origin(
    pieces: Seq<CubePiece>,
    sticker: CubeStickerLocation,
) -> CubeStickerLocation {
    let piece = pieces[sticker.piece_location.index()];
    CubeStickerLocation {
        piece_location: piece.piece,
        twist: if piece.piece.corner() {
            piece.twist.corner_inverse().corner_sum(sticker.twist)
        } else {
            piece.twist.edge_inverse().edge_sum(sticker.twist)
        },
    }
}

/// The state of the cube: which piece sits in each of the twenty slots, and
/// how it is twisted.
#[derive(Debug, Clone, Copy, PartialEq, Eq)]
pub struct CubeState {
    cubies: [CubePiece; 20],
}

/// The state of the cube, under its short name.
pub type Cube = CubeState;

impl View for CubeState {
    type V = Seq<CubePiece>;

    /// The piece of each slot, in the order of the slots' places.
    closed spec fn view(&self) -> Seq<CubePiece> {
        self.cubies@
    }
}

impl CubeState {
    /// Every state has what holds of the states that turns of the faces can
    /// reach: a state is made solved or drawn, and changed by whole moves
    /// only.
    #[verifier::type_invariant]
    pub open spec fn reachable(self) -> bool {
        valid(self@)
    }

    /// The piece in `location`.
    pub open spec fn piece_at(&self, location: CubePieceLocation) -> CubePiece {
        self@[location.index()]
    }

    /// A state holds twenty pieces.
    pub proof fn lemma_len(&self)
        ensures
            self@.len() == 20,
    {
    }

    /// The state that holds the given pieces, slot by slot.
    pub(crate) fn from_cubies(cubies: [CubePiece; 20]) -> (cube: CubeState)
        requires
            valid(cubies@),
        ensures
            cube@ == cubies@,
    {
        CubeState { cubies }
    }

    /// The solved cube.
    pub fn solved() -> (cube: CubeState)
        ensures
            cube@ == solved_pieces(),
            valid(cube@),
    {
        proof {
            lemma_solved_valid();
        }
        let mut cubies = [CubePiece::from_location(CubePieceLocation::URF);20];
        let mut i: usize = 0;
        while i < 20
            invariant
                i <= 20,
                forall|j: int| 0 <= j < i ==> cubies@[j] == solved_pieces()[j],
            decreases 20 - i,
        {
            cubies[i] = CubePiece::from_location(CubePieceLocation::from_index(i));
            i = i + 1;
        }
        assert(cubies@ =~= solved_pieces());
        CubeState { cubies }
    }

    /// Whether every slot holds its own piece, untwisted.
    pub fn is_solved(&self) -> (r: bool)
        ensures
            r == (self@ == solved_pieces()),
    {
        let mut i: usize = 0;
        while i < 20
            invariant
                i <= 20,
                forall|j: int| 0 <= j < i ==> self.cubies@[j] == solved_pieces()[j],
            decreases 20 - i,
        {
            let location = CubePieceLocation::from_index(i);
            if !self.cubies[i].is_solved(&location) {
                assert(self@[i as int] != solved_pieces()[i as int]);
                return false;
            }
            i = i + 1;
        }
        assert(self@ =~= solved_pieces());
        true
    }

    /// The piece that sits in `location`.
    pub fn get_piece_at(&self, location: &CubePieceLocation) -> (piece: CubePiece)
        ensures
            piece == self.piece_at(*location),
    {
        self.cubies[location.to_index()]
    }

    /// Tells which facelet of the solved cube shows at `sticker_location`.
    pub fn get_sticker_origin(&self, sticker_location: &CubeStickerLocation) -> (origin:
        CubeStickerLocation)
        ensures
            origin == sticker_origin(self@, *sticker_location),
    {
        let piece = self.cubies[sticker_location.piece_location.to_index()];
        let piece_twist = piece.get_twist();
        let twist = if piece.is_corner() {
            piece_twist.corner_opposite().corner_add(sticker_location.twist)
        } else {
            piece_twist.edge_opposite().edge_add(sticker_location.twist)
        };
        CubeStickerLocation { piece_location: piece.get_original_location(), twist }
    }

    /// The corner in the corner slot `location`.
    pub fn get_corner_state_at(&self, location: CubePieceLocation) -> (corner: CubePiece)
        requires
            location.corner(),
        ensures
            corner == self.piece_at(location),
    {
        self.cubies[location.to_index()]
    }

    /// The edge in the edge slot `location`.
    pub fn get_edge_state_at(&self, location: CubePieceLocation) -> (edge: CubePiece)
        requires
            location.edge(),
        ensures
            edge == self.piece_at(location),
    {
        self.cubies[location.to_index()]
    }

    /// The corner slots, in the order of their places, each with the piece
    /// in it.
    pub fn iter_corners(&self) -> (corners: Vec<(CubePieceLocation, CubePiece)>)
        ensures
            corners@ == Seq::new(8, |i: int| (CubePieceLocation::at(i), self@[i])),
    {
        self.collect(0, 8)
    }

    /// The edge slots, in the order of their places, each with the piece in
    /// it.
    pub fn iter_edges(&self) -> (edges: Vec<(CubePieceLocation, CubePiece)>)
        ensures
            edges@ == Seq::new(12, |i: int| (CubePieceLocation::at(8 + i), self@[8 + i])),
    {
        self.collect(8, 20)
    }

    fn collect(&self, from: usize, to: usize) -> (slots: Vec<(CubePieceLocation, CubePiece)>)
        requires
            from <= to <= 20,
        ensures
            slots@ == Seq::new(
                (to - from) as nat,
                |i: int| (CubePieceLocation::at(from + i), self@[from + i]),
            ),
    {
        let mut slots: Vec<(CubePieceLocation, CubePiece)> = Vec::new();
        let mut i: usize = from;
        while i < to
            invariant
                from <= i <= to <= 20,
                slots@ == Seq::new(
                    (i - from) as nat,
                    |k: int| (CubePieceLocation::at(from + k), self@[from + k]),
                ),
            decreases to - i,
        {
            slots.push((CubePieceLocation::from_index(i), self.cubies[i]));
            i = i + 1;
            assert(slots@ =~= Seq::new(
                (i - from) as nat,
                |k: int| (CubePieceLocation::at(from + k), self@[from + k]),
            ));
        }
        slots
    }

    /// The name of the facelet of the solved cube that shows at `sticker`, a
    /// facelet of a corner slot.
    pub fn get_corner_sticker_name(&self, sticker: CubeStickerLocation) -> (name: String)
        requires
            sticker.piece_location.corner(),
        ensures
            name@ == sticker_origin(self@, sticker).name(),
    {
        self.get_sticker_origin(&sticker).to_sticker_name()
    }

    /// The name of the facelet of the solved cube that shows at `sticker`, a
    /// facelet of an edge slot.
    pub fn get_edge_sticker_name(&self, sticker: CubeStickerLocation) -> (name: String)
        requires
            sticker.piece_location.edge(),
        ensures
            name@ == sticker_origin(self@, sticker).name(),
    {
        self.get_sticker_origin(&sticker).to_sticker_name()
    }

    /// Applies the moves in order.
    pub fn apply_moves(&mut self, moves: &Vec<CubeMove>)
        ensures
            final(self)@ == moved_all(old(self)@, moves@),
            valid(final(self)@),
    {
        let ghost before = self@;
        proof {
            use_type_invariant(&*self);
        }
        let mut i: usize = 0;
        while i < moves.len()
            invariant
                i <= moves@.len(),
                self@ == moved_all(before, moves@.take(i as int)),
                valid(self@),
            decreases moves@.len() - i,
        {
            self.apply_move(moves[i]);
            i = i + 1;
            assert(moves@.take(i as int).drop_last() =~= moves@.take(i - 1));
        }
        assert(moves@.take(i as int) =~= moves@);
    }

    /// Applies one move: as many clockwise quarter turns of its face as the
    /// move stands for.
    pub fn apply_move(&mut self, cube_move: CubeMove)
        ensures
            final(self)@ == moved(old(self)@, cube_move),
            valid(final(self)@),
    {
        let ghost before = self@;
        proof {
            use_type_invariant(&*self);
        }
        let face = cube_move.get_face();
        let turns = cube_move.get_quarter_turns();
        let mut done: u8 = 0;
        while done < turns
            invariant
                done <= turns,
                self@ == turned(before, face, done as nat),
                valid(self@),
            decreases turns - done,
        {
            self.quarter_turn(face);
            done = done + 1;
        }
    }

    /// Turns `face` by a quarter, clockwise: one cycle of four corners and
    /// one of four edges. The turn is made on the side and put in place
    /// whole.
    fn quarter_turn(&mut self, face: Face)
        ensures
            final(self)@ == quarter_turned(old(self)@, face),
            valid(final(self)@),
    {
        proof {
            use_type_invariant(&*self);
            lemma_quarter_turn_valid(self@, face);
        }
        let mut cubies = self.cubies;
        let corners = corner_cycle_of(face);
        let corner_twists = corner_twists_of(face);
        cycle_cubies(&mut cubies, &corners, &corner_twists);
        let edges = edge_cycle_of(face);
        let edge_twists = edge_twists_of(face);
        cycle_cubies(&mut cubies, &edges, &edge_twists);
        self.cubies = cubies;
    }
}

/// Carries the pieces of four slots round in one pass: the piece taken from
/// the first slot goes to the second, the one found there to the third, and
/// so on, until the last is put into the first.
fn cycle_cubies(
    cubies: &mut [CubePiece; 20],
    locations: &[CubePieceLocation; 4],
    twists: &[Twist; 4],
)
    requires
        distinct_slots(locations@),
    ensures
        final(cubies)@ == cycled(old(cubies)@, locations@, twists@),
{
    let ghost before = cubies@;
    proof {
        reveal_with_fuel(cycled_steps, 5);
        lemma_distinct_places(locations@);
    }
    let mut last_cubie = cubies[locations[0].to_index()];
    let mut step: usize = 0;
    while step < 4
        invariant
            step <= 4,
            distinct_slots(locations@),
            distinct_places(locations@),
            before.len() == 20,
            cubies@.len() == 20,
            last_cubie == before[locations@[step as int % 4].index()],
            cubies@ == cycled_steps(before, locations@, twists@, step as nat),
        decreases 4 - step,
    {
        proof {
            reveal_with_fuel(cycled_steps, 5);
        }
        let target_position = locations[(step + 1) % 4];
        let twist = twists[step];
        let target_cubie = cubies[target_position.to_index()];
        let cubie_to_send = last_cubie;
        last_cubie = target_cubie;
        cubies[target_position.to_index()] = cubie_to_send.twisted(twist);
        step = step + 1;
    }
    proof {
        reveal_with_fuel(cycled_steps, 5);
        reveal(cycled);
    }
    assert(cubies@ =~= cycled(before, locations@, twists@));
}

} // verus!
