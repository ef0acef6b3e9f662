use rubiks::cube::Cube;
use rubiks::location::CubePieceLocation;
use rubiks::moves::CubeMove;
use rubiks::pochmann::PochmannSolver;
use rubiks::stickers::CubeStickerLocation;
use rubiks::twist::Twist;

fn solver() -> PochmannSolver {
    PochmannSolver {
        buffer_corner: CubeStickerLocation {
            piece_location: CubePieceLocation::ULB,
            twist: Twist::SOLVED,
        },
        buffer_edge: CubeStickerLocation {
            piece_location: CubePieceLocation::UR,
            twist: Twist::SOLVED,
        },
    }
}

fn scrambled(text: &str) -> Cube {
    let mut cube = Cube::solved();
    cube.apply_moves(&CubeMove::parse_array(text).expect("Scramble is valid."));
    cube
}

fn names(cycles: &Vec<Vec<CubeStickerLocation>>) -> Vec<Vec<String>> {
    cycles
        .iter()
        .map(|cycle| cycle.iter().map(|s| s.to_sticker_name()).collect())
        .collect()
}

#[test]
fn solved_cube_has_no_cycles() {
    let solution = solver().solve(&Cube::solved());

    assert!(solution.corner_cycles.is_empty());
    assert!(solution.edge_cycles.is_empty());
}

#[test]
fn corner_commutator_gives_one_cycle_of_three() {
    let solution = solver().solve(&scrambled("R U R' D R U' R' D'"));

    assert_eq!(solution.corner_cycles.len(), 1);
    assert_eq!(solution.corner_cycles[0].len(), 3);
    assert_eq!(names(&solution.corner_cycles), vec![vec!["URF", "FDL", "RDF"]]);
    assert!(solution.edge_cycles.is_empty());
}

#[test]
fn other_corner_commutator_gives_one_cycle_of_three() {
    let solution = solver().solve(&scrambled("R' D' R U R' D R U'"));

    assert_eq!(names(&solution.corner_cycles), vec![vec!["URF", "RDF", "UBR"]]);
    assert!(solution.edge_cycles.is_empty());
}

#[test]
fn cycle_through_the_buffer_leaves_the_buffer_out() {
    let solution = solver().solve(&scrambled("L"));

    assert_eq!(names(&solution.corner_cycles), vec![vec!["BLD", "DLF", "FLU"]]);
    assert_eq!(
        names(&solution.edge_cycles),
        vec![vec!["UL", "BL", "DL", "FL"]]
    );
}

#[test]
fn t_perm_swaps_the_edge_buffer_and_two_corners() {
    let solution = solver().solve(&scrambled("R U R' U' R' F R2 U' R' U' R U R' F'"));

    assert_eq!(names(&solution.corner_cycles), vec![vec!["URF", "UBR"]]);
    assert_eq!(names(&solution.edge_cycles), vec![vec!["UL"]]);
}

#[test]
fn twisted_corners_start_their_own_cycles() {
    let solution = solver().solve(&scrambled("R U R' U' R U R' U'"));

    assert_eq!(
        names(&solution.corner_cycles),
        vec![vec!["URF"], vec!["UBR"], vec!["DFR"]]
    );
    assert_eq!(names(&solution.edge_cycles), vec![vec!["UB", "FR"]]);
}

#[test]
fn half_turns_of_all_faces_give_swaps_of_edges_only() {
    let solution = solver().solve(&scrambled("R2 L2 B2 F2 U2 D2"));

    assert!(solution.corner_cycles.is_empty());
    assert_eq!(
        names(&solution.edge_cycles),
        vec![
            vec!["DL"],
            vec!["UF", "DB"],
            vec!["UL", "DR"],
            vec!["UB", "DF"],
            vec!["FR", "BL"],
            vec!["FL", "BR"]
        ]
    );
}

#[test]
fn solve_pieces_takes_the_kind_from_the_buffer() {
    let cube = scrambled("F");
    let solver = solver();

    assert_eq!(
        PochmannSolver::solve_pieces(&cube, &solver.buffer_corner),
        solver.solve(&cube).corner_cycles
    );
    assert_eq!(
        PochmannSolver::solve_pieces(&cube, &solver.buffer_edge),
        solver.solve(&cube).edge_cycles
    );
}

#[test]
fn cycles_visit_every_piece_that_is_not_solved_once() {
    let cube = scrambled("B2 U2 R F' L2 U' L F' D2 R F2 L' B2 D2 B2 R2 U2 L U2 B2");
    let solver = solver();
    let solution = solver.solve(&cube);

    for (cycles, buffer, slots) in [
        (&solution.corner_cycles, solver.buffer_corner, cube.iter_corners()),
        (&solution.edge_cycles, solver.buffer_edge, cube.iter_edges()),
    ] {
        let visited: Vec<CubePieceLocation> = cycles
            .iter()
            .flat_map(|cycle| cycle.iter().map(|sticker| sticker.piece_location))
            .collect();
        for (location, piece) in slots {
            let visits = visited.iter().filter(|other| **other == location).count();
            if location == buffer.piece_location {
                assert_eq!(visits, 0);
            } else if piece.is_solved(&location) {
                assert_eq!(visits, 0);
            } else {
                assert_eq!(visits, 1, "{:?}", location);
            }
        }
    }
}

#[test]
fn cycles_follow_the_facelets_that_show() {
    let cube = scrambled("B2 U2 R F' L2 U' L F' D2 R F2 L' B2 D2 B2 R2 U2 L U2 B2");
    let solver = solver();
    let solution = solver.solve(&cube);

    let first = &solution.corner_cycles[0];
    assert_eq!(first[0], cube.get_sticker_origin(&solver.buffer_corner));
    for cycle in solution.corner_cycles.iter().chain(solution.edge_cycles.iter()) {
        for pair in cycle.windows(2) {
            assert_eq!(pair[1], cube.get_sticker_origin(&pair[0]));
        }
    }
    let last = first[first.len() - 1];
    assert_eq!(
        cube.get_sticker_origin(&last).piece_location,
        solver.buffer_corner.piece_location
    );
    for cycle in solution.corner_cycles.iter().skip(1) {
        let last = cycle[cycle.len() - 1];
        assert_eq!(cycle[0].twist, Twist::SOLVED);
        assert_eq!(
            cube.get_sticker_origin(&last).piece_location,
            cycle[0].piece_location
        );
    }
}
