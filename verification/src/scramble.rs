use crate::cube::{solved_pieces, CubeState};
use crate::facelets::{cube_string, make_cube_string};
use crate::invariants::valid;
use crate::laws::inverse_sequence;
use crate::moves::CubeMove;
use crate::notation::moves_to_string;
use crate::turns::moved_all;
use rand::Rng;
use vstd::prelude::*;
use vstd::string::*;

verus! {

/// The moves that undo `moves`: the inverse of each, last move first.
pub fn invert_moves(moves: &Vec<CubeMove>) -> (undo: Vec<CubeMove>)
    ensures
        undo@ == inverse_sequence(moves@),
{
    let mut undo: Vec<CubeMove> = Vec::new();
    let n = moves.len();
    let mut i: usize = 0;
    while i < n
        invariant
            n == moves@.len(),
            i <= n,
            undo@ == inverse_sequence(moves@).take(i as int),
        decreases n - i,
    {
        undo.push(moves[n - 1 - i].inverted());
        i = i + 1;
        assert(undo@ =~= inverse_sequence(moves@).take(i as int));
    }
    assert(undo@ =~= inverse_sequence(moves@));
    undo
}

/// Tells whether the moves that `moves_str` writes bring the solved cube
/// back to the solved state. There is no answer if the text writes no
/// moves.
pub fn is_cube_solved(moves_str: &str) -> (answer: Option<bool>)
    ensures
        answer == match CubeMove::parsed_sequence(moves_str@) {
            Some(moves) => Some(moved_all(solved_pieces(), moves) == solved_pieces()),
            None => None,
        },
{
    match CubeMove::parse_array(moves_str) {
        Some(moves) => {
            let mut cube = CubeState::solved();
            cube.apply_moves(&moves);
            Some(cube.is_solved())
        },
        None => None,
    }
}

/// Tells whether `solution` solves the state.
pub fn solves(cube: &CubeState, solution: &Vec<CubeMove>) -> (r: bool)
    ensures
        r == (moved_all(cube@, solution@) == solved_pieces()),
{
    let mut cube = *cube;
    cube.apply_moves(solution);
    cube.is_solved()
}

/// The seed of the scramble of a day: the year, the month and the day of
/// the month, written one after the other as one number.
pub fn daily_seed(year: i32, month: u32, day: u32) -> (seed: u64)
    requires
        year >= 0,
    ensures
        seed == year * 10_000 + month * 100 + day,
{
    (year as u64) * 10_000u64 + (month as u64) * 100u64 + (day as u64)
}

/// Draws the state to scramble to, and writes it as the facelets that a
/// solver of whole cubes reads.
pub fn draw_scramble_state<R: Rng>(rng: &mut R) -> (drawn: (CubeState, String))
    ensures
        valid(drawn.0@),
        drawn.1@ == cube_string(drawn.0@),
{
    let cube = CubeState::random_uniform(rng);
    let facelets = make_cube_string(&cube);
    (cube, facelets)
}

/// What a solver of whole cubes found, as a scramble: the moves that the
/// text writes, none for an empty text. There is no scramble if the solver
/// found nothing, or if the text is not empty and writes no moves.
pub open spec fn scramble_of(solution: Option<Seq<char>>) -> Option<Seq<CubeMove>> {
    match solution {
        Some(text) => if text.len() == 0 {
            Some(Seq::empty())
        } else {
            CubeMove::parsed_sequence(text)
        },
        None => None,
    }
}

/// Takes what a solver of whole cubes found: the moves that `solution`
/// writes are the scramble. A solved cube needs no moves, and its solution
/// is an empty text. There is no scramble if the solver found nothing, or
/// if the text writes no moves.
pub fn scramble_from_solution(solution: Option<&str>) -> (scramble: Option<Vec<CubeMove>>)
    ensures
        match scramble {
            Some(moves) => scramble_of(
                match solution {
                    Some(text) => Some(text@),
                    None => None,
                },
            ) == Some(moves@),
            None => scramble_of(
                match solution {
                    Some(text) => Some(text@),
                    None => None,
                },
            ) is None,
        },
{
    match solution {
        Some(text) => if text.is_empty() {
            Some(Vec::new())
        } else {
            CubeMove::parse_array(text)
        },
        None => None,
    }
}

} // verus!
