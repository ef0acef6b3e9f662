use crate::cube::{solved_pieces, sticker_origin, CubeState};
use crate::location::CubePieceLocation;
use crate::piece::CubePiece;
use crate::stickers::CubeStickerLocation;
use crate::twist::Twist;
use crate::walks::{apart, displaced, lemma_cycles_apart, outside};
use vstd::prelude::*;

verus! {

/// The longest walk that a trace makes: no cycle of pieces is longer than
/// the number of slots.
pub const TRACE_LIMIT: usize = 20;

/// The facelets that a walk visits: it starts at `sticker`, goes from each
/// facelet to the facelet of the solved cube that shows there, and ends
/// before the facelet that lies in the slot `stop`, or after `limit` steps.
pub open spec fn traced(
    pieces: Seq<CubePiece>,
    sticker: CubeStickerLocation,
    stop: CubePieceLocation,
    limit: nat,
) -> Seq<CubeStickerLocation>
    decreases limit,
{
    if limit == 0 || sticker.piece_location == stop {
        Seq::empty()
    } else {
        seq![sticker] + traced(pieces, sticker_origin(pieces, sticker), stop, (limit - 1) as nat)
    }
}

/// The cycle through the buffer: the facelets to visit, from the one that
/// shows at the buffer until the walk comes back to the buffer's slot. The
/// buffer itself is not part of it.
pub open spec fn buffer_cycle(
    pieces: Seq<CubePiece>,
    buffer: CubeStickerLocation,
) -> Seq<CubeStickerLocation> {
    traced(pieces, sticker_origin(pieces, buffer), buffer.piece_location, TRACE_LIMIT as nat)
}

/// The first facelet of the slot `location`.
pub open spec fn first_sticker(location: CubePieceLocation) -> CubeStickerLocation {
    CubeStickerLocation { piece_location: location, twist: Twist::Solved }
}

/// The cycle that starts in the slot `location`, away from the buffer: the
/// slot's first facelet, then the facelets to visit until the walk comes
/// back to the slot.
pub open spec fn cycle_from(
    pieces: Seq<CubePiece>,
    location: CubePieceLocation,
) -> Seq<CubeStickerLocation> {
    seq![first_sticker(location)] + traced(
        pieces,
        sticker_origin(pieces, first_sticker(location)),
        location,
        TRACE_LIMIT as nat,
    )
}

/// The slots of the facelets of a cycle.
pub open spec fn visited(cycle: Seq<CubeStickerLocation>) -> Set<CubePieceLocation> {
    Set::new(
        |location: CubePieceLocation|
            exists|i: int| 0 <= i < cycle.len() && (#[trigger] cycle[i]).piece_location == location,
    )
}

/// The cycles that start at the places from `place` up to, and not
/// including, `end`, taken in order: a slot starts a cycle unless an earlier
/// cycle has visited it, or it holds its own piece, untwisted.
pub open spec fn cycles_from(
    pieces: Seq<CubePiece>,
    place: int,
    end: int,
    solved: Set<CubePieceLocation>,
) -> Seq<Seq<CubeStickerLocation>>
    decreases end - place,
{
    if place >= end {
        Seq::empty()
    } else {
        let location = CubePieceLocation::at(place);
        if solved.contains(location) || pieces[place] == CubePiece::home(location) {
            cycles_from(pieces, place + 1, end, solved)
        } else {
            let cycle = cycle_from(pieces, location);
            seq![cycle] + cycles_from(pieces, place + 1, end, solved.union(visited(cycle)))
        }
    }
}

/// The cycles of the pieces of the buffer's kind: the cycle through the
/// buffer first, unless it is empty, then the cycles away from the buffer in
/// the order of the slots in which they start.
pub open spec fn piece_cycles(
    pieces: Seq<CubePiece>,
    buffer: CubeStickerLocation,
) -> Seq<Seq<CubeStickerLocation>> {
    let first = buffer_cycle(pieces, buffer);
    let solved = visited(first).insert(buffer.piece_location);
    let rest = if buffer.piece_location.corner() {
        cycles_from(pieces, 0, 8, solved)
    } else {
        cycles_from(pieces, 8, 20, solved)
    };
    if first.len() == 0 {
        rest
    } else {
        seq![first] + rest
    }
}

/// The cycles as sequences of facelets.
pub open spec fn cycle_views(cycles: Seq<Vec<CubeStickerLocation>>) -> Seq<
    Seq<CubeStickerLocation>,
> {
    cycles.map_values(|cycle: Vec<CubeStickerLocation>| cycle@)
}

/// The marks tell which slots are in the set.
spec fn marks_of(marks: Seq<bool>, solved: Set<CubePieceLocation>) -> bool {
    &&& marks.len() == 20
    &&& forall|location: CubePieceLocation|
        marks[location.index()] == #[trigger] solved.contains(location)
}

/// A blindfold solver by the method of Pochmann: one buffer facelet for the
/// corners and one for the edges.
#[derive(Debug, Clone, Copy, PartialEq, Eq)]
pub struct PochmannSolver {
    pub buffer_corner: CubeStickerLocation,
    pub buffer_edge: CubeStickerLocation,
}

/// What the solver finds: the cycles of the corners and those of the edges,
/// each a sequence of facelets in the order in which they are visited.
#[derive(Debug, Clone, PartialEq, Eq)]
pub struct PochmannSolution {
    pub corner_cycles: Vec<Vec<CubeStickerLocation>>,
    pub edge_cycles: Vec<Vec<CubeStickerLocation>>,
}

impl PochmannSolver {
    /// Decomposes the state into the cycles to execute, for the corners
    /// from the corner buffer and for the edges from the edge buffer. No
    /// slot is visited twice, and a piece that sits untwisted in its own
    /// slot is not visited at all: the solved cube has no cycles.
    pub fn solve(&self, cube: &CubeState) -> (solution: PochmannSolution)
        ensures
            cycle_views(solution.corner_cycles@) == piece_cycles(cube@, self.buffer_corner),
            cycle_views(solution.edge_cycles@) == piece_cycles(cube@, self.buffer_edge),
            apart(cycle_views(solution.corner_cycles@)),
            apart(cycle_views(solution.edge_cycles@)),
            displaced(cube@, cycle_views(solution.corner_cycles@)),
            displaced(cube@, cycle_views(solution.edge_cycles@)),
            cube@ == solved_pieces() ==> solution.corner_cycles@.len() == 0
                && solution.edge_cycles@.len() == 0,
    {
        let corner_cycles = Self::solve_pieces(cube, &self.buffer_corner);
        let edge_cycles = Self::solve_pieces(cube, &self.buffer_edge);
        proof {
            if cube@ == solved_pieces() {
                lemma_solved_has_no_cycles(self.buffer_corner);
                lemma_solved_has_no_cycles(self.buffer_edge);
            }
        }
        PochmannSolution { corner_cycles, edge_cycles }
    }

    /// The cycles of the pieces of the buffer's kind. They leave nothing
    /// undone: every slot of that kind is the buffer's, holds its own piece
    /// untwisted, or is visited by one of the cycles. And they do nothing
    /// twice: no slot is visited more than once, and neither the slot of
    /// the buffer nor a slot that holds its own piece, untwisted, is visited
    /// at all.
    pub fn solve_pieces(cube: &CubeState, buffer: &CubeStickerLocation) -> (cycles: Vec<
        Vec<CubeStickerLocation>,
    >)
        ensures
            cycle_views(cycles@) == piece_cycles(cube@, *buffer),
            forall|location: CubePieceLocation|
                location.corner() == buffer.piece_location.corner() ==> location
                    == buffer.piece_location || cube.piece_at(location) == CubePiece::home(location)
                    || #[trigger] visits(cycle_views(cycles@), location),
            apart(cycle_views(cycles@)),
            outside(cycle_views(cycles@), set![buffer.piece_location]),
            displaced(cube@, cycle_views(cycles@)),
    {
        proof {
            use_type_invariant(cube);
            lemma_cycles_apart(cube@, *buffer);
            cube.lemma_len();
            assert forall|location: CubePieceLocation|
                location.corner() == buffer.piece_location.corner() implies location
                == buffer.piece_location || cube.piece_at(location) == CubePiece::home(location)
                || #[trigger] visits(piece_cycles(cube@, *buffer), location) by {
                lemma_cycles_cover(cube@, *buffer, location);
            }
        }
        let mut solved_locations = [false;20];
        let ghost mut solved: Set<CubePieceLocation> = Set::empty();
        let mut cycles: Vec<Vec<CubeStickerLocation>> = Vec::new();
        proof {
            cube.lemma_len();
        }

        proof {
            buffer.piece_location.lemma_index();
        }
        solved_locations[buffer.piece_location.to_index()] = true;
        proof {
            solved = solved.insert(buffer.piece_location);
            assert forall|location: CubePieceLocation|
                solved_locations@[location.index()] == #[trigger] solved.contains(location) by {
                location.lemma_index();
                buffer.piece_location.lemma_index();
            }
        }
        let first = Self::trace(
            cube,
            cube.get_sticker_origin(buffer),
            &buffer.piece_location,
            &mut solved_locations,
            Ghost(solved),
        );
        proof {
            solved = solved.union(visited(first@));
            assert(solved =~= visited(first@).insert(buffer.piece_location));
        }
        if first.len() > 0 {
            cycles.push(first);
        }
        let ghost head = cycle_views(cycles@);
        let (start, end): (usize, usize) = if buffer.piece_location.is_corner() {
            (0, 8)
        } else {
            (8, 20)
        };
        assert(piece_cycles(cube@, *buffer) == head + cycles_from(
            cube@,
            start as int,
            end as int,
            solved,
        )) by {
            assert(head =~= if first@.len() == 0 {
                Seq::<Seq<CubeStickerLocation>>::empty()
            } else {
                seq![first@]
            });
            assert(Seq::<Seq<CubeStickerLocation>>::empty() + cycles_from(
                cube@,
                start as int,
                end as int,
                solved,
            ) =~= cycles_from(cube@, start as int, end as int, solved));
        }

        let mut place = start;
        while place < end
            invariant
                start <= place <= end <= 20,
                cube@.len() == 20,
                marks_of(solved_locations@, solved),
                piece_cycles(cube@, *buffer) == cycle_views(cycles@) + cycles_from(
                    cube@,
                    place as int,
                    end as int,
                    solved,
                ),
            decreases end - place,
        {
            let location = CubePieceLocation::from_index(place);
            proof {
                location.lemma_index();
            }
            if !solved_locations[place] && !cube.get_piece_at(&location).is_solved(&location) {
                let start_sticker = CubeStickerLocation {
                    piece_location: location,
                    twist: Twist::Solved,
                };
                let ghost before = solved;
                let mut cycle: Vec<CubeStickerLocation> = Vec::new();
                cycle.push(start_sticker);
                solved_locations[place] = true;
                proof {
                    solved = solved.insert(location);
                    assert forall|other: CubePieceLocation|
                        solved_locations@[other.index()] == #[trigger] solved.contains(other) by {
                        other.lemma_index();
                    }
                }
                let mut rest = Self::trace(
                    cube,
                    cube.get_sticker_origin(&start_sticker),
                    &location,
                    &mut solved_locations,
                    Ghost(solved),
                );
                let ghost tail = rest@;
                cycle.append(&mut rest);
                proof {
                    assert(cycle@ =~= cycle_from(cube@, location));
                    solved = solved.union(visited(tail));
                    assert(solved =~= before.union(visited(cycle@))) by {
                        assert forall|other: CubePieceLocation|
                            solved.contains(other) == before.union(visited(cycle@)).contains(
                                other,
                            ) by {
                            if visited(cycle@).contains(other) {
                                let i = choose|i: int|
                                    0 <= i < cycle@.len() && (#[trigger] cycle@[i]).piece_location
                                        == other;
                                if i > 0 {
                                    assert(tail[i - 1].piece_location == other);
                                }
                            }
                            if visited(tail).contains(other) {
                                let i = choose|i: int|
                                    0 <= i < tail.len() && (#[trigger] tail[i]).piece_location
                                        == other;
                                assert(cycle@[i + 1].piece_location == other);
                            }
                            if other == location {
                                assert(cycle@[0].piece_location == other);
                            }
                        }
                    }
                }
                let ghost views_before = cycle_views(cycles@);
                cycles.push(cycle);
                proof {
                    assert(cycle_views(cycles@) =~= views_before + seq![cycle_from(cube@, location)]);
                    assert(views_before + (seq![cycle_from(cube@, location)] + cycles_from(
                        cube@,
                        place + 1,
                        end as int,
                        solved,
                    )) =~= cycle_views(cycles@) + cycles_from(cube@, place + 1, end as int, solved));
                }
            }
            place = place + 1;
        }
        assert(cycle_views(cycles@) + Seq::<Seq<CubeStickerLocation>>::empty() =~= cycle_views(
            cycles@,
        ));
        cycles
    }

    /// Walks from `sticker` to the facelet that shows there, and on, until
    /// the walk reaches the slot `stop`; marks the slot of every facelet
    /// visited.
    fn trace(
        cube: &CubeState,
        sticker: CubeStickerLocation,
        stop: &CubePieceLocation,
        solved_locations: &mut [bool; 20],
        Ghost(solved): Ghost<Set<CubePieceLocation>>,
    ) -> (cycle: Vec<CubeStickerLocation>)
        requires
            marks_of(old(solved_locations)@, solved),
        ensures
            cycle@ == traced(cube@, sticker, *stop, TRACE_LIMIT as nat),
            marks_of(final(solved_locations)@, solved.union(visited(cycle@))),
    {
        let mut cycle: Vec<CubeStickerLocation> = Vec::new();
        let mut current = sticker;
        let mut steps: usize = 0;
        assert(solved.union(visited(cycle@)) =~= solved);
        while steps < TRACE_LIMIT && current.piece_location.to_index() != stop.to_index()
            invariant
                steps <= TRACE_LIMIT,
                marks_of(solved_locations@, solved.union(visited(cycle@))),
                traced(cube@, sticker, *stop, TRACE_LIMIT as nat) == cycle@ + traced(
                    cube@,
                    current,
                    *stop,
                    (TRACE_LIMIT - steps) as nat,
                ),
            decreases TRACE_LIMIT - steps,
        {
            let ghost before = cycle@;
            let ghost marks_before = solved_locations@;
            proof {
                current.piece_location.lemma_index();
                stop.lemma_index();
            }
            cycle.push(current);
            solved_locations[current.piece_location.to_index()] = true;
            proof {
                let next = sticker_origin(cube@, current);
                assert(before + (seq![current] + traced(
                    cube@,
                    next,
                    *stop,
                    (TRACE_LIMIT - steps - 1) as nat,
                )) =~= cycle@ + traced(cube@, next, *stop, (TRACE_LIMIT - steps - 1) as nat));
                assert forall|location: CubePieceLocation|
                    solved_locations@[location.index()] == #[trigger] solved.union(
                        visited(cycle@),
                    ).contains(location) by {
                    location.lemma_index();
                    current.piece_location.lemma_index();
                    assert(marks_before[location.index()] == solved.union(
                        visited(before),
                    ).contains(location));
                    if visited(cycle@).contains(location) {
                        let i = choose|i: int|
                            0 <= i < cycle@.len() && (#[trigger] cycle@[i]).piece_location
                                == location;
                        if i < before.len() {
                            assert(before[i].piece_location == location);
                            assert(visited(before).contains(location));
                        }
                    }
                    if visited(before).contains(location) {
                        let i = choose|i: int|
                            0 <= i < before.len() && (#[trigger] before[i]).piece_location
                                == location;
                        assert(cycle@[i].piece_location == location);
                    }
                    if location == current.piece_location {
                        assert(cycle@[cycle@.len() - 1].piece_location == location);
                    }
                }
            }
            current = cube.get_sticker_origin(&current);
            steps = steps + 1;
        }
        proof {
            current.piece_location.lemma_index();
            stop.lemma_index();
            assert(traced(cube@, current, *stop, (TRACE_LIMIT - steps) as nat) =~= Seq::<
                CubeStickerLocation,
            >::empty());
            assert(cycle@ + Seq::<CubeStickerLocation>::empty() =~= cycle@);
        }
        cycle
    }
}

/// Whether some cycle of `cycles` visits the slot `location`.
pub open spec fn visits(cycles: Seq<Seq<CubeStickerLocation>>, location: CubePieceLocation) -> bool {
    exists|c: int| 0 <= c < cycles.len() && visited(#[trigger] cycles[c]).contains(location)
}

/// A trace goes from each facelet to the facelet of the solved cube that
/// shows there.
pub proof fn lemma_traced_linked(
    pieces: Seq<CubePiece>,
    sticker: CubeStickerLocation,
    stop: CubePieceLocation,
    limit: nat,
    i: int,
)
    requires
        0 <= i < traced(pieces, sticker, stop, limit).len(),
    ensures
        traced(pieces, sticker, stop, limit)[0] == sticker,
        traced(pieces, sticker, stop, limit)[i].piece_location != stop,
        i + 1 < traced(pieces, sticker, stop, limit).len() ==> traced(
            pieces,
            sticker,
            stop,
            limit,
        )[i + 1] == sticker_origin(pieces, traced(pieces, sticker, stop, limit)[i]),
    decreases limit,
{
    if i > 0 {
        let next = sticker_origin(pieces, sticker);
        lemma_traced_linked(pieces, next, stop, (limit - 1) as nat, i - 1);
    } else if 1 < traced(pieces, sticker, stop, limit).len() {
        let next = sticker_origin(pieces, sticker);
        lemma_traced_linked(pieces, next, stop, (limit - 1) as nat, 0);
    }
}

/// The cycles away from the buffer leave nothing undone: every slot of the
/// places that are gone through is solved beforehand, holds its own piece
/// untwisted, or is visited by one of the cycles.
pub proof fn lemma_cycles_from_cover(
    pieces: Seq<CubePiece>,
    place: int,
    end: int,
    solved: Set<CubePieceLocation>,
    k: int,
)
    requires
        0 <= place <= k < end <= 20,
    ensures
        solved.contains(CubePieceLocation::at(k)) || pieces[k] == CubePiece::home(
            CubePieceLocation::at(k),
        ) || visits(cycles_from(pieces, place, end, solved), CubePieceLocation::at(k)),
    decreases end - place,
{
    let location = CubePieceLocation::at(place);
    let cycles = cycles_from(pieces, place, end, solved);
    if solved.contains(location) || pieces[place] == CubePiece::home(location) {
        if k > place {
            lemma_cycles_from_cover(pieces, place + 1, end, solved, k);
        }
    } else {
        let cycle = cycle_from(pieces, location);
        let rest = cycles_from(pieces, place + 1, end, solved.union(visited(cycle)));
        assert(cycles[0] == cycle);
        if k == place {
            assert(cycle[0].piece_location == location);
            assert(visited(cycles[0]).contains(location));
        } else {
            lemma_cycles_from_cover(pieces, place + 1, end, solved.union(visited(cycle)), k);
            let other = CubePieceLocation::at(k);
            if visits(rest, other) {
                let c = choose|c: int| 0 <= c < rest.len() && visited(#[trigger] rest[c]).contains(
                    other,
                );
                assert(cycles[c + 1] == rest[c]);
                assert(visited(cycles[c + 1]).contains(other));
            } else if visited(cycle).contains(other) {
                assert(visited(cycles[0]).contains(other));
            }
        }
    }
}

/// The cycles leave nothing undone: every slot of the buffer's kind is the
/// buffer's, holds its own piece untwisted, or is visited by one of the
/// cycles.
pub proof fn lemma_cycles_cover(
    pieces: Seq<CubePiece>,
    buffer: CubeStickerLocation,
    location: CubePieceLocation,
)
    requires
        pieces.len() == 20,
        location.corner() == buffer.piece_location.corner(),
    ensures
        location == buffer.piece_location || pieces[location.index()] == CubePiece::home(location)
            || visits(piece_cycles(pieces, buffer), location),
{
    location.lemma_index();
    let first = buffer_cycle(pieces, buffer);
    let solved = visited(first).insert(buffer.piece_location);
    let cycles = piece_cycles(pieces, buffer);
    let k = location.index();
    let rest = if buffer.piece_location.corner() {
        lemma_cycles_from_cover(pieces, 0, 8, solved, k);
        cycles_from(pieces, 0, 8, solved)
    } else {
        lemma_cycles_from_cover(pieces, 8, 20, solved, k);
        cycles_from(pieces, 8, 20, solved)
    };
    if visits(rest, location) {
        let c = choose|c: int| 0 <= c < rest.len() && visited(#[trigger] rest[c]).contains(location);
        if first.len() == 0 {
            assert(visited(cycles[c]).contains(location));
        } else {
            assert(cycles[c + 1] == rest[c]);
            assert(visited(cycles[c + 1]).contains(location));
        }
    } else if visited(first).contains(location) {
        assert(first.len() > 0);
        assert(cycles[0] == first);
        assert(visited(cycles[0]).contains(location));
    }
}

/// On the solved cube there is nothing to do: there are no cycles, whatever
/// the buffer.
pub proof fn lemma_solved_has_no_cycles(buffer: CubeStickerLocation)
    ensures
        piece_cycles(solved_pieces(), buffer).len() == 0,
{
    let pieces = solved_pieces();
    buffer.piece_location.lemma_index();
    assert(pieces[buffer.piece_location.index()] == CubePiece::home(buffer.piece_location));
    assert(sticker_origin(pieces, buffer).piece_location == buffer.piece_location);
    let solved = visited(buffer_cycle(pieces, buffer)).insert(buffer.piece_location);
    lemma_solved_starts_no_cycle(0, 8, solved);
    lemma_solved_starts_no_cycle(8, 20, solved);
}

/// On the solved cube no slot starts a cycle.
proof fn lemma_solved_starts_no_cycle(place: int, end: int, solved: Set<CubePieceLocation>)
    requires
        0 <= place <= end <= 20,
    ensures
        cycles_from(solved_pieces(), place, end, solved).len() == 0,
    decreases end - place,
{
    if place < end {
        lemma_solved_starts_no_cycle(place + 1, end, solved);
    }
}

} // verus!
