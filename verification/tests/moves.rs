use rubiks::cube::CubeState;
use rubiks::faces::Face;
use rubiks::moves::CubeMove;
use rubiks::notation::moves_to_string;
use rubiks::scramble::{invert_moves, is_cube_solved, scramble_from_solution, solves};

const ALL_MOVES: [CubeMove; 18] = [
    CubeMove::U,
    CubeMove::U2,
    CubeMove::Up,
    CubeMove::R,
    CubeMove::R2,
    CubeMove::Rp,
    CubeMove::F,
    CubeMove::F2,
    CubeMove::Fp,
    CubeMove::D,
    CubeMove::D2,
    CubeMove::Dp,
    CubeMove::L,
    CubeMove::L2,
    CubeMove::Lp,
    CubeMove::B,
    CubeMove::B2,
    CubeMove::Bp,
];

const ALL_TOKENS: [&str; 18] = [
    "U", "U2", "U'", "R", "R2", "R'", "F", "F2", "F'", "D", "D2", "D'", "L", "L2", "L'", "B",
    "B2", "B'",
];

#[test]
fn every_token_is_read_as_its_move() {
    for (token, cube_move) in ALL_TOKENS.iter().zip(ALL_MOVES) {
        assert_eq!(CubeMove::parse(token), Some(cube_move));
        assert_eq!(cube_move.to_string(), *token);
    }
}

#[test]
fn tokens_that_write_no_move_are_refused() {
    for token in ["", " ", "u", "X", "U3", "U''", "2U", "U2 ", "R2'", "Rp", "é", "U\u{2019}"] {
        assert_eq!(CubeMove::parse(token), None, "{:?}", token);
    }
}

#[test]
fn a_sequence_is_read_in_order() {
    assert_eq!(
        CubeMove::parse_array("R U R' U' R' F R2 U' R' U' R U R' F'"),
        Some(vec![
            CubeMove::R,
            CubeMove::U,
            CubeMove::Rp,
            CubeMove::Up,
            CubeMove::Rp,
            CubeMove::F,
            CubeMove::R2,
            CubeMove::Up,
            CubeMove::Rp,
            CubeMove::Up,
            CubeMove::R,
            CubeMove::U,
            CubeMove::Rp,
            CubeMove::Fp,
        ])
    );
    assert_eq!(CubeMove::parse_array("B2"), Some(vec![CubeMove::B2]));
}

#[test]
fn a_sequence_with_one_bad_token_is_refused_whole() {
    for text in [
        "", " ", "R  U", " R U", "R U ", "R U X", "X R U", "R,U", "R\tU", "R U\n", "R U3 F",
        "R é U",
    ] {
        assert_eq!(CubeMove::parse_array(text), None, "{:?}", text);
    }
}

#[test]
fn inverted_undoes_every_move() {
    let expected = [
        CubeMove::Up,
        CubeMove::U2,
        CubeMove::U,
        CubeMove::Rp,
        CubeMove::R2,
        CubeMove::R,
        CubeMove::Fp,
        CubeMove::F2,
        CubeMove::F,
        CubeMove::Dp,
        CubeMove::D2,
        CubeMove::D,
        CubeMove::Lp,
        CubeMove::L2,
        CubeMove::L,
        CubeMove::Bp,
        CubeMove::B2,
        CubeMove::B,
    ];
    for (cube_move, inverse) in ALL_MOVES.iter().zip(expected) {
        assert_eq!(cube_move.inverted(), inverse);
        assert_eq!(cube_move.inverted().inverted(), *cube_move);

        let mut cube = CubeState::solved();
        cube.apply_move(*cube_move);
        assert!(!cube.is_solved());
        cube.apply_move(cube_move.inverted());
        assert!(cube.is_solved());
    }
}

#[test]
fn every_move_applied_four_times_restores_the_solved_cube() {
    for cube_move in ALL_MOVES {
        let mut cube = CubeState::solved();
        for _ in 0..4 {
            cube.apply_move(cube_move);
        }
        assert!(cube.is_solved(), "{:?}", cube_move);
    }
}

#[test]
fn every_move_applied_four_times_restores_a_scrambled_cube() {
    let scramble = CubeMove::parse_array("B2 U2 R F' L2 U' L F' D2 R F2 L' B2 D2 B2 R2 U2 L U2 B2")
        .expect("Scramble is valid.");
    for cube_move in ALL_MOVES {
        let mut cube = CubeState::solved();
        cube.apply_moves(&scramble);
        let before = cube;
        cube.apply_moves(&vec![cube_move, cube_move, cube_move, cube_move]);
        assert_eq!(cube, before, "{:?}", cube_move);
    }
}

#[test]
fn half_turns_applied_twice_restore_the_solved_cube() {
    for cube_move in [
        CubeMove::U2,
        CubeMove::R2,
        CubeMove::F2,
        CubeMove::D2,
        CubeMove::L2,
        CubeMove::B2,
    ] {
        let mut cube = CubeState::solved();
        cube.apply_move(cube_move);
        assert!(!cube.is_solved());
        cube.apply_move(cube_move);
        assert!(cube.is_solved());
    }
}

#[test]
fn a_move_turns_its_face_as_often_as_its_name_tells() {
    assert_eq!(CubeMove::U.get_face(), Face::U);
    assert_eq!(CubeMove::Rp.get_face(), Face::R);
    assert_eq!(CubeMove::B2.get_face(), Face::B);
    assert_eq!(CubeMove::F.get_quarter_turns(), 1);
    assert_eq!(CubeMove::D2.get_quarter_turns(), 2);
    assert_eq!(CubeMove::Lp.get_quarter_turns(), 3);
    assert_eq!(CubeMove::from_turns(Face::L, 3), CubeMove::Lp);
    assert_eq!(CubeMove::from_turns(Face::D, 1), CubeMove::D);

    let mut once = CubeState::solved();
    once.apply_move(CubeMove::Fp);
    let mut thrice = CubeState::solved();
    thrice.apply_moves(&vec![CubeMove::F, CubeMove::F, CubeMove::F]);
    assert_eq!(once, thrice);

    let mut half = CubeState::solved();
    half.apply_move(CubeMove::L2);
    let mut twice = CubeState::solved();
    twice.apply_moves(&vec![CubeMove::L, CubeMove::L]);
    assert_eq!(half, twice);
}

#[test]
fn a_scramble_followed_by_its_inverse_restores_the_state() {
    let first = CubeMove::parse_array("R U R' U' R' F R2 U' R' U' R U R' F'").unwrap();
    let second = CubeMove::parse_array("B2 U2 R F' L2 U' L F' D2 R F2 L' B2 D2").unwrap();

    let mut cube = CubeState::solved();
    cube.apply_moves(&first);
    let before = cube;
    cube.apply_moves(&second);
    assert_ne!(cube, before);
    cube.apply_moves(&invert_moves(&second));
    assert_eq!(cube, before);
}

#[test]
fn invert_moves_reverses_and_inverts() {
    assert_eq!(
        invert_moves(&vec![CubeMove::R, CubeMove::U2, CubeMove::Fp]),
        vec![CubeMove::F, CubeMove::U2, CubeMove::Rp]
    );
    assert_eq!(invert_moves(&vec![]), vec![]);
}

#[test]
fn moves_are_written_with_single_spaces() {
    assert_eq!(moves_to_string(&vec![]), "");
    assert_eq!(moves_to_string(&vec![CubeMove::Bp]), "B'");
    assert_eq!(
        moves_to_string(&vec![CubeMove::R, CubeMove::U2, CubeMove::Fp, CubeMove::D]),
        "R U2 F' D"
    );
}

#[test]
fn written_moves_are_read_back() {
    let moves = ALL_MOVES.to_vec();
    assert_eq!(
        moves_to_string(&moves),
        "U U2 U' R R2 R' F F2 F' D D2 D' L L2 L' B B2 B'"
    );
    assert_eq!(CubeMove::parse_array(&moves_to_string(&moves)), Some(moves));
}

#[test]
fn is_cube_solved_tells_whether_the_moves_cancel() {
    assert_eq!(is_cube_solved("R R'"), Some(true));
    assert_eq!(is_cube_solved("U U U U"), Some(true));
    assert_eq!(
        is_cube_solved("R U R' U' R U R' U' R U R' U' R U R' U' R U R' U' R U R' U'"),
        Some(true)
    );
    assert_eq!(is_cube_solved("R U R' U'"), Some(false));
    assert_eq!(is_cube_solved("R"), Some(false));
    assert_eq!(is_cube_solved("R U X"), None);
    assert_eq!(is_cube_solved(""), None);
}

#[test]
fn solves_tells_whether_the_moves_solve_the_state() {
    let scramble = CubeMove::parse_array("R U2 F' D").unwrap();
    let mut cube = CubeState::solved();
    cube.apply_moves(&scramble);

    assert!(solves(&cube, &invert_moves(&scramble)));
    assert!(!solves(&cube, &scramble));
    assert!(!solves(&cube, &vec![]));
    assert!(solves(&CubeState::solved(), &vec![]));
}

#[test]
fn a_scramble_is_what_the_solver_found() {
    assert_eq!(
        scramble_from_solution(Some("R U2 F'")),
        Some(vec![CubeMove::R, CubeMove::U2, CubeMove::Fp])
    );
    assert_eq!(scramble_from_solution(Some("R U2 F3")), None);
    assert_eq!(scramble_from_solution(Some("")), Some(vec![]));
    assert_eq!(scramble_from_solution(Some(" ")), None);
    assert_eq!(scramble_from_solution(None), None);
}
