use crate::cube::{sticker_origin, well_formed};
use crate::invariants::distinct_pieces;
use crate::location::CubePieceLocation;
use crate::piece::CubePiece;
use crate::pochmann::{
    buffer_cycle, cycle_from, cycles_from, first_sticker, piece_cycles, traced, visited,
    TRACE_LIMIT,
};
use crate::stickers::CubeStickerLocation;
use vstd::prelude::*;

verus! {

/// The slot to which the piece in `location` belongs.
pub open spec fn home_of(pieces: Seq<CubePiece>, location: CubePieceLocation) -> CubePieceLocation {
    pieces[location.index()].piece
}

/// The slot reached from `location` by going `steps` times from a slot to
/// the slot to which its piece belongs.
pub open spec fn walked(
    pieces: Seq<CubePiece>,
    location: CubePieceLocation,
    steps: nat,
) -> CubePieceLocation
    decreases steps,
{
    if steps == 0 {
        location
    } else {
        walked(pieces, home_of(pieces, location), (steps - 1) as nat)
    }
}

/// One more step leads to the home of the piece in the slot reached so far.
pub proof fn lemma_walked_on(pieces: Seq<CubePiece>, location: CubePieceLocation, steps: nat)
    ensures
        walked(pieces, location, steps + 1) == home_of(pieces, walked(pieces, location, steps)),
    decreases steps,
{
    reveal_with_fuel(walked, 2);
    if steps > 0 {
        let next = home_of(pieces, location);
        lemma_walked_on(pieces, next, (steps - 1) as nat);
        assert(((steps - 1) as nat + 1) as nat == steps);
        assert(walked(pieces, location, steps + 1) == walked(pieces, next, steps));
        assert(walked(pieces, location, steps) == walked(pieces, next, (steps - 1) as nat));
    }
}

/// Where no piece sits in two slots, the pieces of two slots belong to one
/// slot only if the two are one.
pub proof fn lemma_home_injective(
    pieces: Seq<CubePiece>,
    first: CubePieceLocation,
    second: CubePieceLocation,
)
    requires
        pieces.len() == 20,
        distinct_pieces(pieces),
        home_of(pieces, first) == home_of(pieces, second),
    ensures
        first == second,
{
    first.lemma_index();
    second.lemma_index();
    let i = first.index();
    let j = second.index();
    if i < j {
        assert(pieces[i].piece != pieces[j].piece);
    } else if j < i {
        assert(pieces[j].piece != pieces[i].piece);
    }
}

/// A walk that reaches one slot after `early` steps and again after `late`
/// steps is back where it began after the steps between the two.
pub proof fn lemma_walk_back(
    pieces: Seq<CubePiece>,
    location: CubePieceLocation,
    early: nat,
    late: nat,
)
    requires
        pieces.len() == 20,
        distinct_pieces(pieces),
        early <= late,
        walked(pieces, location, early) == walked(pieces, location, late),
    ensures
        walked(pieces, location, (late - early) as nat) == location,
    decreases early,
{
    if early > 0 {
        lemma_walked_on(pieces, location, (early - 1) as nat);
        lemma_walked_on(pieces, location, (late - 1) as nat);
        lemma_home_injective(
            pieces,
            walked(pieces, location, (early - 1) as nat),
            walked(pieces, location, (late - 1) as nat),
        );
        lemma_walk_back(pieces, location, (early - 1) as nat, (late - 1) as nat);
    }
}

/// Where no piece sits in two slots, a walk is back where it began after
/// twenty steps at most.
pub proof fn lemma_walk_returns(pieces: Seq<CubePiece>, location: CubePieceLocation) -> (steps: nat)
    requires
        pieces.len() == 20,
        distinct_pieces(pieces),
    ensures
        1 <= steps <= 20,
        walked(pieces, location, steps) == location,
{
    // Twenty-one slots of a walk cannot all be different.
    let places = Seq::new(21, |k: int| walked(pieces, location, k as nat).index());
    assert forall|k: int| 0 <= k < 21 implies 0 <= #[trigger] places[k] < 20 by {
        walked(pieces, location, k as nat).lemma_index();
    }
    if places.no_duplicates() {
        places.unique_seq_to_set();
        vstd::set_lib::lemma_int_range(0, 20);
        assert(places.to_set().subset_of(vstd::set_lib::set_int_range(0, 20))) by {
            assert forall|x: int| places.to_set().contains(x) implies vstd::set_lib::set_int_range(
                0,
                20,
            ).contains(x) by {
                let k = choose|k: int| 0 <= k < places.len() && places[k] == x;
                assert(0 <= places[k] < 20);
            }
        }
        vstd::set_lib::lemma_len_subset(places.to_set(), vstd::set_lib::set_int_range(0, 20));
        assert(false);
    }
    let (i, j) = choose|i: int, j: int|
        0 <= i < places.len() && 0 <= j < places.len() && i != j && places[i] == places[j];
    let early = if i < j {
        i
    } else {
        j
    };
    let late = if i < j {
        j
    } else {
        i
    };
    let first = walked(pieces, location, early as nat);
    let second = walked(pieces, location, late as nat);
    first.lemma_index();
    second.lemma_index();
    assert(places[early] == first.index() && places[late] == second.index());
    assert(first == second);
    lemma_walk_back(pieces, location, early as nat, late as nat);
    (late - early) as nat
}

/// The slots of the facelets of a trace are the slots of the walk: a trace
/// that sets out `steps` steps before the walk reaches `stop`, with a limit
/// of no fewer steps, is not cut short, and a higher limit changes nothing.
pub proof fn lemma_trace_within_limit(
    pieces: Seq<CubePiece>,
    sticker: CubeStickerLocation,
    stop: CubePieceLocation,
    steps: nat,
    limit: nat,
    higher: nat,
)
    requires
        walked(pieces, sticker.piece_location, steps) == stop,
        steps <= limit <= higher,
    ensures
        traced(pieces, sticker, stop, higher) == traced(pieces, sticker, stop, limit),
        traced(pieces, sticker, stop, limit).len() <= steps,
        walked(
            pieces,
            sticker.piece_location,
            traced(pieces, sticker, stop, limit).len(),
        ) == stop,
    decreases steps,
{
    if sticker.piece_location != stop {
        let next = sticker_origin(pieces, sticker);
        assert(next.piece_location == home_of(pieces, sticker.piece_location));
        lemma_trace_within_limit(
            pieces,
            next,
            stop,
            (steps - 1) as nat,
            (limit - 1) as nat,
            (higher - 1) as nat,
        );
    }
}

/// In a state in which no piece sits in two slots, the walk that traces a
/// cycle from the facelet that shows at `sticker` comes back to the slot of
/// `sticker`, and does so before the limit of the trace: the limit cuts no
/// cycle short, and any higher limit gives the same cycle.
pub proof fn lemma_cycle_closes(pieces: Seq<CubePiece>, sticker: CubeStickerLocation, higher: nat)
    requires
        well_formed(pieces),
        distinct_pieces(pieces),
        higher >= TRACE_LIMIT,
    ensures
        traced(pieces, sticker_origin(pieces, sticker), sticker.piece_location, higher) == traced(
            pieces,
            sticker_origin(pieces, sticker),
            sticker.piece_location,
            TRACE_LIMIT as nat,
        ),
        traced(
            pieces,
            sticker_origin(pieces, sticker),
            sticker.piece_location,
            TRACE_LIMIT as nat,
        ).len() < TRACE_LIMIT,
        walked(
            pieces,
            sticker.piece_location,
            1 + traced(
                pieces,
                sticker_origin(pieces, sticker),
                sticker.piece_location,
                TRACE_LIMIT as nat,
            ).len(),
        ) == sticker.piece_location,
{
    let stop = sticker.piece_location;
    let first = sticker_origin(pieces, sticker);
    let steps = lemma_walk_returns(pieces, stop);
    assert(first.piece_location == home_of(pieces, stop));
    assert(walked(pieces, first.piece_location, (steps - 1) as nat) == stop);
    lemma_trace_within_limit(
        pieces,
        first,
        stop,
        (steps - 1) as nat,
        TRACE_LIMIT as nat,
        higher,
    );
    let cycle = traced(pieces, first, stop, TRACE_LIMIT as nat);
    assert(walked(pieces, stop, 1 + cycle.len()) == walked(pieces, first.piece_location, cycle.len()));
}

/// Walking on from where a walk has led is one walk of as many steps as the
/// two together.
pub proof fn lemma_walked_sum(
    pieces: Seq<CubePiece>,
    location: CubePieceLocation,
    first: nat,
    second: nat,
)
    ensures
        walked(pieces, walked(pieces, location, first), second) == walked(
            pieces,
            location,
            first + second,
        ),
    decreases first,
{
    if first > 0 {
        lemma_walked_sum(pieces, home_of(pieces, location), (first - 1) as nat, second);
        assert(((first - 1) as nat + second) as nat == (first + second - 1) as nat);
    }
}

/// A walk that is back where it began after some steps is back there after
/// any number of rounds of as many steps.
pub proof fn lemma_walk_rounds(
    pieces: Seq<CubePiece>,
    location: CubePieceLocation,
    steps: nat,
    rounds: nat,
)
    requires
        walked(pieces, location, steps) == location,
    ensures
        walked(pieces, location, steps * rounds) == location,
    decreases rounds,
{
    if rounds > 0 {
        lemma_walk_rounds(pieces, location, steps, (rounds - 1) as nat);
        assert(steps * rounds == steps * (rounds - 1) as nat + steps) by (nonlinear_arith)
            requires
                rounds > 0,
        ;
        lemma_walked_sum(pieces, location, steps * (rounds - 1) as nat, steps);
    } else {
        assert(steps * rounds == 0) by (nonlinear_arith)
            requires
                rounds == 0,
        ;
    }
}

/// The set holds, with every slot, the slot to which the piece in it
/// belongs.
pub open spec fn closed(pieces: Seq<CubePiece>, slots: Set<CubePieceLocation>) -> bool {
    forall|location: CubePieceLocation|
        slots.contains(location) ==> slots.contains(#[trigger] home_of(pieces, location))
}

/// A walk that begins in a closed set stays in it.
pub proof fn lemma_walk_stays(
    pieces: Seq<CubePiece>,
    slots: Set<CubePieceLocation>,
    location: CubePieceLocation,
    steps: nat,
)
    requires
        closed(pieces, slots),
        slots.contains(location),
    ensures
        slots.contains(walked(pieces, location, steps)),
    decreases steps,
{
    if steps > 0 {
        assert(slots.contains(home_of(pieces, location)));
        lemma_walk_stays(pieces, slots, home_of(pieces, location), (steps - 1) as nat);
    }
}

/// Where no piece sits in two slots, a walk that begins outside a closed
/// set never enters it.
pub proof fn lemma_walk_stays_out(
    pieces: Seq<CubePiece>,
    slots: Set<CubePieceLocation>,
    location: CubePieceLocation,
    steps: nat,
)
    requires
        pieces.len() == 20,
        distinct_pieces(pieces),
        closed(pieces, slots),
        !slots.contains(location),
    ensures
        !slots.contains(walked(pieces, location, steps)),
{
    if slots.contains(walked(pieces, location, steps)) {
        // From a slot of the walk, the walk leads back to where it began.
        let round = lemma_walk_returns(pieces, location);
        lemma_walk_rounds(pieces, location, round, steps);
        assert(round * steps >= steps) by (nonlinear_arith)
            requires
                round >= 1,
        ;
        let rest = (round * steps - steps) as nat;
        lemma_walked_sum(pieces, location, steps, rest);
        lemma_walk_stays(pieces, slots, walked(pieces, location, steps), rest);
    }
}

/// The facelet at place `i` of a trace lies in the slot that the walk
/// reaches after `i` steps.
pub proof fn lemma_trace_slots(
    pieces: Seq<CubePiece>,
    sticker: CubeStickerLocation,
    stop: CubePieceLocation,
    limit: nat,
    i: int,
)
    requires
        0 <= i < traced(pieces, sticker, stop, limit).len(),
    ensures
        traced(pieces, sticker, stop, limit)[i].piece_location == walked(
            pieces,
            sticker.piece_location,
            i as nat,
        ),
        traced(pieces, sticker, stop, limit)[i].piece_location != stop,
    decreases limit,
{
    if i > 0 {
        let next = sticker_origin(pieces, sticker);
        assert(next.piece_location == home_of(pieces, sticker.piece_location));
        lemma_trace_slots(pieces, next, stop, (limit - 1) as nat, i - 1);
    }
}

/// The trace of the cycle that leaves the slot of `sticker`.
pub open spec fn cycle_of(
    pieces: Seq<CubePiece>,
    sticker: CubeStickerLocation,
) -> Seq<CubeStickerLocation> {
    traced(pieces, sticker_origin(pieces, sticker), sticker.piece_location, TRACE_LIMIT as nat)
}

/// The facelet at place `i` of the cycle that leaves a slot lies in the slot
/// that the walk from that slot reaches after `i + 1` steps.
pub proof fn lemma_cycle_slots(pieces: Seq<CubePiece>, sticker: CubeStickerLocation, i: int)
    requires
        0 <= i < cycle_of(pieces, sticker).len(),
    ensures
        cycle_of(pieces, sticker)[i].piece_location == walked(
            pieces,
            sticker.piece_location,
            (i + 1) as nat,
        ),
        cycle_of(pieces, sticker)[i].piece_location != sticker.piece_location,
{
    let first = sticker_origin(pieces, sticker);
    assert(first.piece_location == home_of(pieces, sticker.piece_location));
    lemma_trace_slots(pieces, first, sticker.piece_location, TRACE_LIMIT as nat, i);
}

/// In a state in which no piece sits in two slots, a cycle visits no slot
/// twice.
pub proof fn lemma_cycle_visits_once(
    pieces: Seq<CubePiece>,
    sticker: CubeStickerLocation,
    i: int,
    j: int,
)
    requires
        pieces.len() == 20,
        distinct_pieces(pieces),
        0 <= i < j < cycle_of(pieces, sticker).len(),
    ensures
        cycle_of(pieces, sticker)[i].piece_location != cycle_of(pieces, sticker)[j].piece_location,
{
    let stop = sticker.piece_location;
    lemma_cycle_slots(pieces, sticker, i);
    lemma_cycle_slots(pieces, sticker, j);
    if walked(pieces, stop, (i + 1) as nat) == walked(pieces, stop, (j + 1) as nat) {
        lemma_walk_back(pieces, stop, (i + 1) as nat, (j + 1) as nat);
        lemma_cycle_slots(pieces, sticker, j - i - 1);
    }
}

/// In a state in which no piece sits in two slots, the slot that a cycle
/// leaves and the slots that it visits are closed: the cycle is the whole
/// round of the pieces through their slots.
pub proof fn lemma_cycle_closed(pieces: Seq<CubePiece>, sticker: CubeStickerLocation)
    requires
        well_formed(pieces),
        distinct_pieces(pieces),
    ensures
        closed(pieces, visited(cycle_of(pieces, sticker)).insert(sticker.piece_location)),
{
    let stop = sticker.piece_location;
    let cycle = cycle_of(pieces, sticker);
    let slots = visited(cycle).insert(stop);
    lemma_cycle_closes(pieces, sticker, TRACE_LIMIT as nat);
    assert forall|location: CubePieceLocation| slots.contains(location) implies slots.contains(
        #[trigger] home_of(pieces, location),
    ) by {
        let next = home_of(pieces, location);
        if location == stop {
            if cycle.len() > 0 {
                lemma_cycle_slots(pieces, sticker, 0);
                assert(walked(pieces, stop, 1) == next) by {
                    reveal_with_fuel(walked, 2);
                }
                assert(cycle[0].piece_location == next);
            } else {
                assert(walked(pieces, stop, 1) == next) by {
                    reveal_with_fuel(walked, 2);
                }
            }
        } else {
            let i = choose|i: int| 0 <= i < cycle.len() && (#[trigger] cycle[i]).piece_location
                == location;
            lemma_cycle_slots(pieces, sticker, i);
            lemma_walked_on(pieces, stop, (i + 1) as nat);
            if i + 1 < cycle.len() {
                lemma_cycle_slots(pieces, sticker, i + 1);
                assert(cycle[i + 1].piece_location == next);
            } else {
                assert(next == stop);
            }
        }
    }
}

/// No two facelets of the cycles lie in one slot.
pub open spec fn apart(cycles: Seq<Seq<CubeStickerLocation>>) -> bool {
    forall|c: int, i: int, d: int, j: int|
        0 <= c < cycles.len() && 0 <= i < cycles[c].len() && 0 <= d < cycles.len() && 0 <= j
            < cycles[d].len() && (c != d || i != j) ==> (#[trigger] cycles[c][i]).piece_location != (
        #[trigger] cycles[d][j]).piece_location
}

/// No facelet of the cycles lies in a slot of the set.
pub open spec fn outside(cycles: Seq<Seq<CubeStickerLocation>>, slots: Set<CubePieceLocation>) -> bool {
    forall|c: int, i: int|
        0 <= c < cycles.len() && 0 <= i < cycles[c].len() ==> !slots.contains(
            (#[trigger] cycles[c][i]).piece_location,
        )
}

/// A cycle that visits no slot twice, put in front of cycles that are apart
/// and that visit none of its slots, gives cycles that are apart.
proof fn lemma_apart_with(
    cycle: Seq<CubeStickerLocation>,
    rest: Seq<Seq<CubeStickerLocation>>,
)
    requires
        forall|i: int, j: int|
            0 <= i < j < cycle.len() ==> (#[trigger] cycle[i]).piece_location != (
            #[trigger] cycle[j]).piece_location,
        apart(rest),
        outside(rest, visited(cycle)),
    ensures
        apart(seq![cycle] + rest),
{
    let cycles = seq![cycle] + rest;
    assert forall|c: int, i: int, d: int, j: int|
        0 <= c < cycles.len() && 0 <= i < cycles[c].len() && 0 <= d < cycles.len() && 0 <= j
            < cycles[d].len() && (c != d || i != j) implies (#[trigger] cycles[c][i]).piece_location
        != (#[trigger] cycles[d][j]).piece_location by {
        if c == 0 && d == 0 {
            if i < j {
                assert(cycle[i].piece_location != cycle[j].piece_location);
            } else {
                assert(cycle[j].piece_location != cycle[i].piece_location);
            }
        } else if c == 0 {
            assert(cycles[d] == rest[d - 1]);
            assert(visited(cycle).contains(cycle[i].piece_location));
            assert(!visited(cycle).contains(rest[d - 1][j].piece_location));
        } else if d == 0 {
            assert(cycles[c] == rest[c - 1]);
            assert(visited(cycle).contains(cycle[j].piece_location));
            assert(!visited(cycle).contains(rest[c - 1][i].piece_location));
        } else {
            assert(cycles[c] == rest[c - 1]);
            assert(cycles[d] == rest[d - 1]);
            assert(rest[c - 1][i].piece_location != rest[d - 1][j].piece_location);
        }
    }
}

/// A walk from a slot that holds its own piece goes nowhere.
pub proof fn lemma_walk_at_home(pieces: Seq<CubePiece>, location: CubePieceLocation, steps: nat)
    requires
        home_of(pieces, location) == location,
    ensures
        walked(pieces, location, steps) == location,
    decreases steps,
{
    if steps > 0 {
        lemma_walk_at_home(pieces, location, (steps - 1) as nat);
    }
}

/// In a state in which no piece sits in two slots, no slot that a cycle
/// visits holds its own piece.
pub proof fn lemma_cycle_visits_displaced(
    pieces: Seq<CubePiece>,
    sticker: CubeStickerLocation,
    i: int,
)
    requires
        well_formed(pieces),
        distinct_pieces(pieces),
        0 <= i < cycle_of(pieces, sticker).len(),
    ensures
        home_of(pieces, cycle_of(pieces, sticker)[i].piece_location) != cycle_of(
            pieces,
            sticker,
        )[i].piece_location,
{
    let stop = sticker.piece_location;
    let cycle = cycle_of(pieces, sticker);
    let slot = cycle[i].piece_location;
    lemma_cycle_slots(pieces, sticker, i);
    lemma_cycle_closes(pieces, sticker, TRACE_LIMIT as nat);
    if home_of(pieces, slot) == slot {
        let rest = (cycle.len() - i) as nat;
        lemma_walk_at_home(pieces, slot, rest);
        lemma_walked_sum(pieces, stop, (i + 1) as nat, rest);
        assert((i + 1) as nat + rest == 1 + cycle.len());
    }
}

/// No facelet of the cycles lies in a slot that holds its own piece,
/// untwisted.
pub open spec fn displaced(pieces: Seq<CubePiece>, cycles: Seq<Seq<CubeStickerLocation>>) -> bool {
    forall|c: int, i: int|
        0 <= c < cycles.len() && 0 <= i < cycles[c].len() ==> pieces[(
        #[trigger] cycles[c][i]).piece_location.index()] != CubePiece::home(
            cycles[c][i].piece_location,
        )
}

/// In a state in which no piece sits in two slots, the cycles away from the
/// buffer are apart, visit no slot that is solved beforehand, and visit no
/// slot that holds its own piece, untwisted.
pub proof fn lemma_cycles_from_apart(
    pieces: Seq<CubePiece>,
    place: int,
    end: int,
    solved: Set<CubePieceLocation>,
)
    requires
        well_formed(pieces),
        distinct_pieces(pieces),
        closed(pieces, solved),
        0 <= place <= end <= 20,
    ensures
        apart(cycles_from(pieces, place, end, solved)),
        outside(cycles_from(pieces, place, end, solved), solved),
        displaced(pieces, cycles_from(pieces, place, end, solved)),
    decreases end - place,
{
    if place < end {
        let location = CubePieceLocation::at(place);
        CubePieceLocation::lemma_at(place);
        if solved.contains(location) || pieces[place] == CubePiece::home(location) {
            lemma_cycles_from_apart(pieces, place + 1, end, solved);
        } else {
            let start = first_sticker(location);
            let trace = cycle_of(pieces, start);
            let cycle = cycle_from(pieces, location);
            assert(cycle =~= seq![start] + trace);
            let more = solved.union(visited(cycle));
            let rest = cycles_from(pieces, place + 1, end, more);
            let cycles = cycles_from(pieces, place, end, solved);
            assert(cycles == seq![cycle] + rest);
            // The slots of the cycle are the slot where it starts and the
            // slots of its trace.
            assert forall|other: CubePieceLocation|
                visited(cycle).contains(other) == visited(trace).insert(location).contains(
                    other,
                ) by {
                if visited(cycle).contains(other) {
                    let i = choose|i: int|
                        0 <= i < cycle.len() && (#[trigger] cycle[i]).piece_location == other;
                    if i > 0 {
                        assert(trace[i - 1].piece_location == other);
                    }
                }
                if visited(trace).contains(other) {
                    let i = choose|i: int|
                        0 <= i < trace.len() && (#[trigger] trace[i]).piece_location == other;
                    assert(cycle[i + 1].piece_location == other);
                }
                if other == location {
                    assert(cycle[0].piece_location == other);
                }
            }
            lemma_cycle_closed(pieces, start);
            assert(closed(pieces, more)) by {
                assert forall|other: CubePieceLocation| more.contains(other) implies more.contains(
                    #[trigger] home_of(pieces, other),
                ) by {
                    if solved.contains(other) {
                        assert(solved.contains(home_of(pieces, other)));
                    } else {
                        assert(visited(trace).insert(location).contains(other));
                        assert(visited(trace).insert(location).contains(home_of(pieces, other)));
                    }
                }
            }
            lemma_cycles_from_apart(pieces, place + 1, end, more);
            assert forall|i: int, j: int| 0 <= i < j < cycle.len() implies (
            #[trigger] cycle[i]).piece_location != (#[trigger] cycle[j]).piece_location by {
                lemma_cycle_slots(pieces, start, j - 1);
                if i > 0 {
                    lemma_cycle_visits_once(pieces, start, i - 1, j - 1);
                }
            }
            assert(outside(rest, visited(cycle))) by {
                assert forall|c: int, i: int|
                    0 <= c < rest.len() && 0 <= i < rest[c].len() implies !visited(cycle).contains(
                    (#[trigger] rest[c][i]).piece_location,
                ) by {
                    assert(!more.contains(rest[c][i].piece_location));
                }
            }
            lemma_apart_with(cycle, rest);
            assert forall|c: int, i: int|
                0 <= c < cycles.len() && 0 <= i < cycles[c].len() implies !solved.contains(
                (#[trigger] cycles[c][i]).piece_location,
            ) && pieces[cycles[c][i].piece_location.index()] != CubePiece::home(
                cycles[c][i].piece_location,
            ) by {
                if c == 0 {
                    if i > 0 {
                        lemma_cycle_slots(pieces, start, i - 1);
                        lemma_walk_stays_out(pieces, solved, location, i as nat);
                        lemma_cycle_visits_displaced(pieces, start, i - 1);
                    }
                } else {
                    assert(cycles[c] == rest[c - 1]);
                    assert(!more.contains(rest[c - 1][i].piece_location));
                    assert(pieces[rest[c - 1][i].piece_location.index()] != CubePiece::home(
                        rest[c - 1][i].piece_location,
                    ));
                }
            }
        }
    }
}

/// In a state in which no piece sits in two slots, the cycles are apart:
/// no slot is visited twice. They visit neither the slot of the buffer nor
/// a slot that holds its own piece, untwisted.
pub proof fn lemma_cycles_apart(pieces: Seq<CubePiece>, buffer: CubeStickerLocation)
    requires
        well_formed(pieces),
        distinct_pieces(pieces),
    ensures
        apart(piece_cycles(pieces, buffer)),
        outside(piece_cycles(pieces, buffer), set![buffer.piece_location]),
        displaced(pieces, piece_cycles(pieces, buffer)),
{
    let first = buffer_cycle(pieces, buffer);
    assert(first == cycle_of(pieces, buffer));
    let solved = visited(first).insert(buffer.piece_location);
    lemma_cycle_closed(pieces, buffer);
    let rest = if buffer.piece_location.corner() {
        lemma_cycles_from_apart(pieces, 0, 8, solved);
        cycles_from(pieces, 0, 8, solved)
    } else {
        lemma_cycles_from_apart(pieces, 8, 20, solved);
        cycles_from(pieces, 8, 20, solved)
    };
    let cycles = piece_cycles(pieces, buffer);
    if first.len() > 0 {
        assert(cycles == seq![first] + rest);
        assert forall|i: int, j: int| 0 <= i < j < first.len() implies (
        #[trigger] first[i]).piece_location != (#[trigger] first[j]).piece_location by {
            lemma_cycle_visits_once(pieces, buffer, i, j);
        }
        assert(outside(rest, visited(first))) by {
            assert forall|c: int, i: int|
                0 <= c < rest.len() && 0 <= i < rest[c].len() implies !visited(first).contains(
                (#[trigger] rest[c][i]).piece_location,
            ) by {
                assert(!solved.contains(rest[c][i].piece_location));
            }
        }
        lemma_apart_with(first, rest);
    }
    assert forall|c: int, i: int|
        0 <= c < cycles.len() && 0 <= i < cycles[c].len() implies !set![
            buffer.piece_location,
        ].contains((#[trigger] cycles[c][i]).piece_location) && pieces[cycles[c][i].piece_location.index()]
        != CubePiece::home(cycles[c][i].piece_location) by {
        if first.len() > 0 && c == 0 {
            lemma_cycle_slots(pieces, buffer, i);
            lemma_cycle_visits_displaced(pieces, buffer, i);
        } else {
            let k = if first.len() > 0 {
                c - 1
            } else {
                c
            };
            assert(cycles[c] == rest[k]);
            assert(!solved.contains(rest[k][i].piece_location));
            assert(pieces[rest[k][i].piece_location.index()] != CubePiece::home(
                rest[k][i].piece_location,
            ));
        }
    }
}

} // verus!
