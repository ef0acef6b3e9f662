use rubiks::cube::CubeState;
use rubiks::location::CubePieceLocation;
use rubiks::permutations::permutation_parity;
use rubiks::piece::CubePiece;
use rubiks::scramble::draw_scramble_state;
use rubiks::facelets::make_cube_string;
use rubiks::twist::Twist;

const SOLVED_CORNERS: [Twist; 8] = [Twist::SOLVED; 8];
const SOLVED_EDGES: [Twist; 12] = [Twist::SOLVED; 12];

fn corner_permutation(cube: &CubeState) -> Vec<usize> {
    cube.iter_corners()
        .iter()
        .map(|(_, piece)| piece.get_original_location().to_index())
        .collect()
}

fn edge_permutation(cube: &CubeState) -> Vec<usize> {
    cube.iter_edges()
        .iter()
        .map(|(_, piece)| piece.get_original_location().to_index() - 8)
        .collect()
}

#[test]
fn identity_parts_make_the_solved_cube() {
    let cube = CubeState::from_parts(
        [0, 1, 2, 3, 4, 5, 6, 7],
        [0, 1, 2, 3, 4, 5, 6, 7, 8, 9, 10, 11],
        SOLVED_CORNERS,
        SOLVED_EDGES,
    );
    assert!(cube.is_solved());
}

#[test]
fn parts_are_put_into_their_slots() {
    let cube = CubeState::from_parts(
        [1, 2, 0, 3, 4, 5, 6, 7],
        [0, 1, 2, 3, 4, 5, 6, 7, 8, 11, 9, 10],
        SOLVED_CORNERS,
        SOLVED_EDGES,
    );

    assert_eq!(
        cube.get_piece_at(&CubePieceLocation::URF),
        CubePiece::from_location(CubePieceLocation::UFL)
    );
    assert_eq!(
        cube.get_piece_at(&CubePieceLocation::UFL),
        CubePiece::from_location(CubePieceLocation::ULB)
    );
    assert_eq!(
        cube.get_piece_at(&CubePieceLocation::ULB),
        CubePiece::from_location(CubePieceLocation::URF)
    );
    assert_eq!(
        cube.get_piece_at(&CubePieceLocation::FL),
        CubePiece::from_location(CubePieceLocation::BR)
    );
    assert_eq!(
        cube.get_piece_at(&CubePieceLocation::BL),
        CubePiece::from_location(CubePieceLocation::FL)
    );
    assert_eq!(
        cube.get_piece_at(&CubePieceLocation::BR),
        CubePiece::from_location(CubePieceLocation::BL)
    );
    assert_eq!(
        cube.get_piece_at(&CubePieceLocation::UR),
        CubePiece::from_location(CubePieceLocation::UR)
    );
}

#[test]
fn an_odd_arrangement_of_the_corners_exchanges_the_first_two_edges() {
    let cube = CubeState::from_parts(
        [1, 0, 2, 3, 4, 5, 6, 7],
        [0, 1, 2, 3, 4, 5, 6, 7, 8, 9, 10, 11],
        SOLVED_CORNERS,
        SOLVED_EDGES,
    );

    assert_eq!(corner_permutation(&cube), vec![1, 0, 2, 3, 4, 5, 6, 7]);
    assert_eq!(
        edge_permutation(&cube),
        vec![1, 0, 2, 3, 4, 5, 6, 7, 8, 9, 10, 11]
    );
}

#[test]
fn an_odd_arrangement_of_the_edges_exchanges_the_first_two_edges() {
    let cube = CubeState::from_parts(
        [0, 1, 2, 3, 4, 5, 6, 7],
        [0, 1, 2, 3, 4, 5, 6, 7, 8, 9, 11, 10],
        SOLVED_CORNERS,
        SOLVED_EDGES,
    );

    assert_eq!(
        edge_permutation(&cube),
        vec![1, 0, 2, 3, 4, 5, 6, 7, 8, 9, 11, 10]
    );
}

#[test]
fn arrangements_of_one_parity_are_kept() {
    let cube = CubeState::from_parts(
        [1, 0, 2, 3, 4, 5, 6, 7],
        [0, 1, 2, 3, 4, 5, 6, 7, 8, 9, 11, 10],
        SOLVED_CORNERS,
        SOLVED_EDGES,
    );

    assert_eq!(corner_permutation(&cube), vec![1, 0, 2, 3, 4, 5, 6, 7]);
    assert_eq!(
        edge_permutation(&cube),
        vec![0, 1, 2, 3, 4, 5, 6, 7, 8, 9, 11, 10]
    );
}

#[test]
fn the_first_twists_make_up_for_the_others() {
    let mut corner_twists = SOLVED_CORNERS;
    corner_twists[0] = Twist::CW_120;
    corner_twists[3] = Twist::CW_240;
    corner_twists[5] = Twist::CW_240;
    let mut edge_twists = SOLVED_EDGES;
    edge_twists[2] = Twist::FLIPPED;
    edge_twists[7] = Twist::FLIPPED;
    edge_twists[11] = Twist::FLIPPED;

    let cube = CubeState::from_parts(
        [0, 1, 2, 3, 4, 5, 6, 7],
        [0, 1, 2, 3, 4, 5, 6, 7, 8, 9, 10, 11],
        corner_twists,
        edge_twists,
    );

    let corners: Vec<Twist> = cube
        .iter_corners()
        .iter()
        .map(|(_, piece)| piece.get_twist())
        .collect();
    assert_eq!(
        corners,
        vec![
            Twist::CW_240,
            Twist::SOLVED,
            Twist::SOLVED,
            Twist::CW_240,
            Twist::SOLVED,
            Twist::CW_240,
            Twist::SOLVED,
            Twist::SOLVED
        ]
    );
    let edges: Vec<Twist> = cube
        .iter_edges()
        .iter()
        .map(|(_, piece)| piece.get_twist())
        .collect();
    assert_eq!(edges[0], Twist::FLIPPED);
    assert_eq!(edges[2], Twist::FLIPPED);
    assert_eq!(edges[7], Twist::FLIPPED);
    assert_eq!(edges[11], Twist::FLIPPED);
    assert_eq!(
        edges.iter().filter(|twist| **twist == Twist::FLIPPED).count(),
        4
    );
}

#[test]
fn balanced_twists_are_kept() {
    let mut corner_twists = SOLVED_CORNERS;
    corner_twists[0] = Twist::CW_120;
    corner_twists[1] = Twist::CW_240;
    let mut edge_twists = SOLVED_EDGES;
    edge_twists[0] = Twist::FLIPPED;
    edge_twists[1] = Twist::FLIPPED;

    let cube = CubeState::from_parts(
        [0, 1, 2, 3, 4, 5, 6, 7],
        [0, 1, 2, 3, 4, 5, 6, 7, 8, 9, 10, 11],
        corner_twists,
        edge_twists,
    );

    assert_eq!(
        cube.get_piece_at(&CubePieceLocation::URF).get_twist(),
        Twist::CW_120
    );
    assert_eq!(
        cube.get_piece_at(&CubePieceLocation::UFL).get_twist(),
        Twist::CW_240
    );
    assert_eq!(
        cube.get_piece_at(&CubePieceLocation::UR).get_twist(),
        Twist::FLIPPED
    );
    assert_eq!(
        cube.get_piece_at(&CubePieceLocation::UF).get_twist(),
        Twist::FLIPPED
    );
}

#[test]
fn drawn_states_have_every_piece_once_and_matching_parities() {
    let mut rng = rand::rng();
    let mut permuted = false;

    for _ in 0..1000 {
        let cube = CubeState::random_uniform(&mut rng);

        let corners = corner_permutation(&cube);
        let mut sorted = corners.clone();
        sorted.sort();
        assert_eq!(sorted, (0..8).collect::<Vec<usize>>());

        let edges = edge_permutation(&cube);
        let mut sorted = edges.clone();
        sorted.sort();
        assert_eq!(sorted, (0..12).collect::<Vec<usize>>());

        assert_eq!(permutation_parity(&corners), permutation_parity(&edges));
        assert!(cube
            .iter_edges()
            .iter()
            .all(|(_, edge)| edge.get_twist() != Twist::CW_240));
        permuted = permuted || corners != (0..8).collect::<Vec<usize>>();
    }
    assert!(permuted);
}

#[test]
fn the_state_to_scramble_to_comes_with_its_facelets() {
    let mut rng = rand::rng();
    let (cube, facelets) = draw_scramble_state(&mut rng);

    assert_eq!(facelets, make_cube_string(&cube));
    assert_eq!(facelets.len(), 54);
}
