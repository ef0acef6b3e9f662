use rubiks::cube::Cube;
use rubiks::location::CubePieceLocation;
use rubiks::moves::CubeMove::{Fp, Lp, Rp, Up, F, L, R, R2, U};
use rubiks::piece::CubePiece;
use rubiks::stickers::CubeStickerLocation;
use rubiks::twist::Twist;

const fn piece(location: CubePieceLocation) -> CubePiece {
    CubePiece {
        piece: location,
        twist: Twist::Solved,
    }
}

const PIECE_UFR: CubePiece = piece(CubePieceLocation::URF);
const PIECE_UFL: CubePiece = piece(CubePieceLocation::UFL);
const PIECE_UBL: CubePiece = piece(CubePieceLocation::ULB);
const PIECE_UBR: CubePiece = piece(CubePieceLocation::UBR);
const PIECE_UR: CubePiece = piece(CubePieceLocation::UR);
const PIECE_UF: CubePiece = piece(CubePieceLocation::UF);
const PIECE_UL: CubePiece = piece(CubePieceLocation::UL);
const PIECE_UB: CubePiece = piece(CubePieceLocation::UB);
const PIECE_DF: CubePiece = piece(CubePieceLocation::DF);
const PIECE_DL: CubePiece = piece(CubePieceLocation::DL);

const fn sticker(piece_location: CubePieceLocation, twist: Twist) -> CubeStickerLocation {
    CubeStickerLocation {
        piece_location,
        twist,
    }
}

const STICKER_URF: CubeStickerLocation = sticker(CubePieceLocation::URF, Twist::SOLVED);
const STICKER_RFU: CubeStickerLocation = sticker(CubePieceLocation::URF, Twist::CW_120);
const STICKER_FUR: CubeStickerLocation = sticker(CubePieceLocation::URF, Twist::CW_240);
const STICKER_UBR: CubeStickerLocation = sticker(CubePieceLocation::UBR, Twist::SOLVED);
const STICKER_BRU: CubeStickerLocation = sticker(CubePieceLocation::UBR, Twist::CW_120);
const STICKER_RUB: CubeStickerLocation = sticker(CubePieceLocation::UBR, Twist::CW_240);
const STICKER_UL: CubeStickerLocation = sticker(CubePieceLocation::UL, Twist::SOLVED);
const STICKER_LU: CubeStickerLocation = sticker(CubePieceLocation::UL, Twist::FLIPPED);
const STICKER_UB: CubeStickerLocation = sticker(CubePieceLocation::UB, Twist::SOLVED);
const STICKER_BU: CubeStickerLocation = sticker(CubePieceLocation::UB, Twist::FLIPPED);
const STICKER_UR: CubeStickerLocation = sticker(CubePieceLocation::UR, Twist::SOLVED);
const STICKER_RU: CubeStickerLocation = sticker(CubePieceLocation::UR, Twist::FLIPPED);
const STICKER_DF: CubeStickerLocation = sticker(CubePieceLocation::DF, Twist::SOLVED);
const STICKER_FD: CubeStickerLocation = sticker(CubePieceLocation::DF, Twist::FLIPPED);
const STICKER_DL: CubeStickerLocation = sticker(CubePieceLocation::DL, Twist::SOLVED);
const STICKER_LD: CubeStickerLocation = sticker(CubePieceLocation::DL, Twist::FLIPPED);
const STICKER_FR: CubeStickerLocation = sticker(CubePieceLocation::FR, Twist::SOLVED);
const STICKER_RF: CubeStickerLocation = sticker(CubePieceLocation::FR, Twist::FLIPPED);

#[test]
fn cube_test_move_u() {
    let mut cube = Cube::solved();
    cube.apply_move(U);

    assert_eq!(cube.get_piece_at(&CubePieceLocation::UFL), PIECE_UFR);
    assert_eq!(cube.get_piece_at(&CubePieceLocation::URF), PIECE_UBR);
    assert_eq!(cube.get_piece_at(&CubePieceLocation::UBR), PIECE_UBL);
    assert_eq!(cube.get_piece_at(&CubePieceLocation::ULB), PIECE_UFL);

    assert_eq!(cube.get_piece_at(&CubePieceLocation::UF), PIECE_UR);
    assert_eq!(cube.get_piece_at(&CubePieceLocation::UR), PIECE_UB);
    assert_eq!(cube.get_piece_at(&CubePieceLocation::UB), PIECE_UL);
    assert_eq!(cube.get_piece_at(&CubePieceLocation::UL), PIECE_UF);
}

#[test]
fn cube_test_move_up() {
    let mut cube = Cube::solved();
    cube.apply_move(Up);

    assert_eq!(cube.get_piece_at(&CubePieceLocation::URF), PIECE_UFL);
    assert_eq!(cube.get_piece_at(&CubePieceLocation::UBR), PIECE_UFR);
    assert_eq!(cube.get_piece_at(&CubePieceLocation::ULB), PIECE_UBR);
    assert_eq!(cube.get_piece_at(&CubePieceLocation::UFL), PIECE_UBL);

    assert_eq!(cube.get_piece_at(&CubePieceLocation::UR), PIECE_UF);
    assert_eq!(cube.get_piece_at(&CubePieceLocation::UB), PIECE_UR);
    assert_eq!(cube.get_piece_at(&CubePieceLocation::UL), PIECE_UB);
    assert_eq!(cube.get_piece_at(&CubePieceLocation::UF), PIECE_UL);
}

#[test]
fn cube_test_twist_r2() {
    let mut cube = Cube::solved();
    cube.apply_move(R);
    cube.apply_move(R);

    assert!(cube
        .iter_corners()
        .iter()
        .all(|(_, c)| c.get_twist() == Twist::SOLVED));
}

#[test]
fn cube_test_r4() {
    let mut cube = Cube::solved();
    cube.apply_move(R);
    cube.apply_move(R);
    cube.apply_move(R);
    cube.apply_move(R);

    assert!(cube.is_solved());
}

#[test]
fn cube_test_3_sexy_twist() {
    let mut cube = Cube::solved();
    cube.apply_moves(&vec![R, U, Rp, Up, R, U, Rp, Up, R, U, Rp, Up]);

    assert_eq!(
        cube.get_piece_at(&CubePieceLocation::URF).get_twist(),
        Twist::SOLVED
    );
}

#[test]
fn test_6_sexy_has_no_effect() {
    let mut cube = Cube::solved();
    cube.apply_moves(&vec![
        R, U, Rp, Up, R, U, Rp, Up, R, U, Rp, Up, R, U, Rp, Up, R, U, Rp, Up, R, U, Rp, Up,
    ]);
    assert_eq!(cube, Cube::solved());
}

#[test]
fn test_6_lf_sexy_has_no_effect() {
    let mut cube = Cube::solved();
    cube.apply_moves(&vec![
        L, Fp, Lp, F, L, Fp, Lp, F, L, Fp, Lp, F, L, Fp, Lp, F, L, Fp, Lp, F, L, Fp, Lp, F,
    ]);
    assert_eq!(cube, Cube::solved());
}

#[test]
fn test_t_perm() {
    let mut cube = Cube::solved();
    cube.apply_moves(&vec![
        R, U, Rp, Up, Rp, F, R2, Up, Rp, Up, R, U, Rp, Fp,
    ]);

    assert_eq!(cube.get_piece_at(&CubePieceLocation::DF), PIECE_DF);
    assert_eq!(cube.get_piece_at(&CubePieceLocation::DL), PIECE_DL);

    assert_eq!(
        cube.get_sticker_origin(&STICKER_DF).to_sticker_name(),
        "DF"
    );
    assert_eq!(cube.get_sticker_origin(&STICKER_DL), STICKER_DL);
    assert_eq!(cube.get_sticker_origin(&STICKER_FD), STICKER_FD);
    assert_eq!(cube.get_sticker_origin(&STICKER_LD), STICKER_LD);

    assert_eq!(cube.get_sticker_origin(&STICKER_LU), STICKER_RU);
    assert_eq!(cube.get_sticker_origin(&STICKER_RUB), STICKER_FUR);
    assert_eq!(cube.get_sticker_origin(&STICKER_RFU), STICKER_BRU);

    cube.apply_moves(&vec![
        R, U, Rp, Up, Rp, F, R2, Up, Rp, Up, R, U, Rp, Fp,
    ]);
    assert!(cube.is_solved());
}

#[test]
fn test_random_cube_twist_sum() {
    let mut rng = rand::rng();

    for _ in 0..1000 {
        let cube = Cube::random_uniform(&mut rng);

        let corner_twist = cube
            .iter_corners()
            .iter()
            .fold(Twist::SOLVED, |sum, (_, corner)| {
                sum.corner_add(corner.get_twist())
            });
        assert_eq!(corner_twist, Twist::SOLVED);

        let edge_twist = cube
            .iter_edges()
            .iter()
            .fold(Twist::SOLVED, |sum, (_, edge)| {
                sum.edge_add(edge.get_twist())
            });
        assert_eq!(edge_twist, Twist::SOLVED);
    }
}

#[test]
fn test_sticker_origin_name() {
    let mut cube = Cube::solved();
    cube.apply_moves(&vec![R, U, Rp, Up]);

    assert_eq!(cube.get_sticker_origin(&STICKER_UB).to_sticker_name(), "UR");
    assert_eq!(cube.get_sticker_origin(&STICKER_BU).to_sticker_name(), "RU");
    assert_eq!(cube.get_sticker_origin(&STICKER_UR).to_sticker_name(), "FR");
    assert_eq!(cube.get_sticker_origin(&STICKER_RU).to_sticker_name(), "RF");
    assert_eq!(cube.get_sticker_origin(&STICKER_FR).to_sticker_name(), "UB");
    assert_eq!(cube.get_sticker_origin(&STICKER_RF).to_sticker_name(), "BU");
    assert_eq!(
        cube.get_sticker_origin(&STICKER_UBR).to_sticker_name(),
        "LBU"
    );
    assert_eq!(
        cube.get_sticker_origin(&STICKER_BRU).to_sticker_name(),
        "BUL"
    );
    assert_eq!(
        cube.get_sticker_origin(&STICKER_RUB).to_sticker_name(),
        "ULB"
    );
    assert_eq!(
        cube.get_sticker_origin(&STICKER_URF).to_sticker_name(),
        "FRD"
    );
    assert_eq!(
        cube.get_sticker_origin(&STICKER_RFU).to_sticker_name(),
        "RDF"
    );
    assert_eq!(
        cube.get_sticker_origin(&STICKER_FUR).to_sticker_name(),
        "DFR"
    );
}

#[test]
fn t_perm_leaves_the_back_edge_and_swaps_left_and_right() {
    let mut cube = Cube::solved();
    cube.apply_moves(&vec![
        R, U, Rp, Up, Rp, F, R2, Up, Rp, Up, R, U, Rp, Fp,
    ]);

    assert!(!cube.is_solved());
    assert_eq!(cube.get_sticker_origin(&STICKER_UB).to_sticker_name(), "UB");
    assert_eq!(cube.get_sticker_origin(&STICKER_UL).to_sticker_name(), "UR");
    assert_eq!(cube.get_sticker_origin(&STICKER_UR).to_sticker_name(), "UL");
    assert_eq!(cube.get_piece_at(&CubePieceLocation::UL), PIECE_UR);
    assert_eq!(cube.get_piece_at(&CubePieceLocation::UR), PIECE_UL);
    assert_eq!(cube.get_piece_at(&CubePieceLocation::UB), PIECE_UB);
}

#[test]
fn commutator_has_order_six() {
    let sexy = vec![R, U, Rp, Up];
    let mut cube = Cube::solved();
    for round in 1..=6 {
        cube.apply_moves(&sexy);
        assert_eq!(cube.is_solved(), round == 6);
    }
}

#[test]
fn three_commutators_swap_two_pairs_of_corners() {
    let mut cube = Cube::solved();
    for _ in 0..3 {
        cube.apply_moves(&vec![R, U, Rp, Up]);
    }

    assert!(!cube.is_solved());
    assert_eq!(
        cube.get_piece_at(&CubePieceLocation::URF),
        piece(CubePieceLocation::DFR)
    );
    assert_eq!(
        cube.get_piece_at(&CubePieceLocation::DFR),
        piece(CubePieceLocation::URF)
    );
    assert_eq!(
        cube.get_piece_at(&CubePieceLocation::UBR).piece,
        CubePieceLocation::ULB
    );
    assert_eq!(
        cube.get_piece_at(&CubePieceLocation::ULB).piece,
        CubePieceLocation::UBR
    );
    assert!(cube
        .iter_edges()
        .iter()
        .all(|(location, edge)| edge.is_solved(location)));
}
