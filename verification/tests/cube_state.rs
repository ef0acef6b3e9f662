use rubiks::cube::CubeState;
use rubiks::location::{Corner, Edge, PieceLocation};
use rubiks::moves::CubeMove;
use rubiks::moves::CubeMove::{Rp, Up, R, U};
use rubiks::piece::{CornerState, EdgeState};
use rubiks::twist::{CornerTwist, EdgeTwist, Twist};

#[test]
fn test_move_u() {
    let mut cube = CubeState::solved();
    cube.apply_move(CubeMove::U);

    assert_eq!(
        cube.get_corner_state_at(PieceLocation::UFL),
        CornerState {
            piece: Corner::UFR,
            twist: Twist::solved()
        }
    );
    assert_eq!(
        cube.get_corner_state_at(PieceLocation::UFR),
        CornerState {
            piece: Corner::UBR,
            twist: Twist::solved()
        }
    );
    assert_eq!(
        cube.get_corner_state_at(PieceLocation::UBR),
        CornerState {
            piece: Corner::UBL,
            twist: Twist::solved()
        }
    );
    assert_eq!(
        cube.get_corner_state_at(PieceLocation::UBL),
        CornerState {
            piece: Corner::UFL,
            twist: Twist::solved()
        }
    );

    assert_eq!(
        cube.get_edge_state_at(PieceLocation::UF),
        EdgeState {
            piece: Edge::UR,
            twist: Twist::solved()
        }
    );
    assert_eq!(
        cube.get_edge_state_at(PieceLocation::UR),
        EdgeState {
            piece: Edge::UB,
            twist: Twist::solved()
        }
    );
    assert_eq!(
        cube.get_edge_state_at(PieceLocation::UB),
        EdgeState {
            piece: Edge::UL,
            twist: Twist::solved()
        }
    );
    assert_eq!(
        cube.get_edge_state_at(PieceLocation::UL),
        EdgeState {
            piece: Edge::UF,
            twist: Twist::solved()
        }
    );
}

#[test]
fn test_move_up() {
    let mut cube = CubeState::solved();
    cube.apply_move(CubeMove::Up);

    assert_eq!(
        cube.get_corner_state_at(PieceLocation::UFR),
        CornerState {
            piece: Corner::UFL,
            twist: Twist::solved()
        }
    );
    assert_eq!(
        cube.get_corner_state_at(PieceLocation::UBR),
        CornerState {
            piece: Corner::UFR,
            twist: Twist::solved()
        }
    );
    assert_eq!(
        cube.get_corner_state_at(PieceLocation::UBL),
        CornerState {
            piece: Corner::UBR,
            twist: Twist::solved()
        }
    );
    assert_eq!(
        cube.get_corner_state_at(PieceLocation::UFL),
        CornerState {
            piece: Corner::UBL,
            twist: Twist::solved()
        }
    );

    assert_eq!(
        cube.get_edge_state_at(PieceLocation::UR),
        EdgeState {
            piece: Edge::UF,
            twist: Twist::solved()
        }
    );
    assert_eq!(
        cube.get_edge_state_at(PieceLocation::UB),
        EdgeState {
            piece: Edge::UR,
            twist: Twist::solved()
        }
    );
    assert_eq!(
        cube.get_edge_state_at(PieceLocation::UL),
        EdgeState {
            piece: Edge::UB,
            twist: Twist::solved()
        }
    );
    assert_eq!(
        cube.get_edge_state_at(PieceLocation::UF),
        EdgeState {
            piece: Edge::UL,
            twist: Twist::solved()
        }
    );
}

#[test]
fn test_move_r() {
    let mut cube = CubeState::solved();
    cube.apply_move(CubeMove::R);

    assert_eq!(
        cube.get_corner_state_at(PieceLocation::UBR),
        CornerState {
            piece: Corner::UFR,
            twist: CornerTwist::CW_120
        }
    );
    assert_eq!(
        cube.get_corner_state_at(PieceLocation::DBR),
        CornerState {
            piece: Corner::UBR,
            twist: CornerTwist::CW_240
        }
    );
    assert_eq!(
        cube.get_corner_state_at(PieceLocation::DFR),
        CornerState {
            piece: Corner::DBR,
            twist: CornerTwist::CW_120
        }
    );
    assert_eq!(
        cube.get_corner_state_at(PieceLocation::UFR),
        CornerState {
            piece: Corner::DFR,
            twist: CornerTwist::CW_240
        }
    );

    assert_eq!(
        cube.get_edge_state_at(PieceLocation::BR),
        EdgeState {
            piece: Edge::UR,
            twist: EdgeTwist::solved().flipped()
        }
    );
    assert_eq!(
        cube.get_edge_state_at(PieceLocation::DR),
        EdgeState {
            piece: Edge::BR,
            twist: EdgeTwist::solved().flipped()
        }
    );
    assert_eq!(
        cube.get_edge_state_at(PieceLocation::FR),
        EdgeState {
            piece: Edge::DR,
            twist: EdgeTwist::solved().flipped()
        }
    );
    assert_eq!(
        cube.get_edge_state_at(PieceLocation::UR),
        EdgeState {
            piece: Edge::FR,
            twist: EdgeTwist::solved().flipped()
        }
    );
}

#[test]
fn test_move_rp() {
    let mut cube = CubeState::solved();
    cube.apply_move(CubeMove::Rp);

    assert_eq!(
        cube.get_corner_state_at(PieceLocation::UFR),
        CornerState {
            piece: Corner::UBR,
            twist: CornerTwist::CW_240
        }
    );
    assert_eq!(
        cube.get_corner_state_at(PieceLocation::UBR),
        CornerState {
            piece: Corner::DBR,
            twist: CornerTwist::CW_120
        }
    );
    assert_eq!(
        cube.get_corner_state_at(PieceLocation::DBR),
        CornerState {
            piece: Corner::DFR,
            twist: CornerTwist::CW_240
        }
    );
    assert_eq!(
        cube.get_corner_state_at(PieceLocation::DFR),
        CornerState {
            piece: Corner::UFR,
            twist: CornerTwist::CW_120
        }
    );

    assert_eq!(
        cube.get_edge_state_at(PieceLocation::UR),
        EdgeState {
            piece: Edge::BR,
            twist: Twist::solved().flipped()
        }
    );
    assert_eq!(
        cube.get_edge_state_at(PieceLocation::BR),
        EdgeState {
            piece: Edge::DR,
            twist: Twist::solved().flipped()
        }
    );
    assert_eq!(
        cube.get_edge_state_at(PieceLocation::DR),
        EdgeState {
            piece: Edge::FR,
            twist: Twist::solved().flipped()
        }
    );
    assert_eq!(
        cube.get_edge_state_at(PieceLocation::FR),
        EdgeState {
            piece: Edge::UR,
            twist: Twist::solved().flipped()
        }
    );
}

#[test]
fn test_twist_r2() {
    let mut cube = CubeState::solved();
    cube.apply_move(R);
    cube.apply_move(R);

    assert!(cube
        .iter_corners()
        .iter()
        .all(|(_, state)| state.twist == Twist::solved()));
}

#[test]
fn test_r4() {
    let mut cube = CubeState::solved();
    cube.apply_move(R);
    cube.apply_move(R);
    cube.apply_move(R);
    cube.apply_move(R);

    assert!(cube.is_solved());
}

#[test]
fn test_r_rp() {
    let mut cube = CubeState::solved();
    cube.apply_move(R);
    cube.apply_move(Rp);

    assert!(cube.is_solved());
}

#[test]
fn test_3_sexy_twist() {
    let mut cube = CubeState::solved();
    cube.apply_moves(&vec![R, U, Rp, Up, R, U, Rp, Up, R, U, Rp, Up]);

    assert_eq!(
        cube.get_corner_state_at(PieceLocation::UFR).twist,
        Twist::solved()
    );
}

#[test]
fn test_3_sexy_has_no_effect() {
    let mut cube = CubeState::solved();
    cube.apply_moves(&vec![
        R, U, Rp, Up, R, U, Rp, Up, R, U, Rp, Up, R, U, Rp, Up, R, U, Rp, Up, R, U, Rp, Up,
    ]);
    assert_eq!(cube, CubeState::solved());
}
