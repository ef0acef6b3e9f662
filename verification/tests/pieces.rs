use rubiks::cube::CubeState;
use rubiks::faces::{Face, FaceMask};
use rubiks::location::{CubePieceLocation, CORNER_COUNT, EDGE_COUNT, LOCATION_COUNT};
use rubiks::permutations::{identity_permutation, permutation_parity, random_uniform_permutation};
use rubiks::piece::CubePiece;
use rubiks::stickers::CubeStickerLocation;
use rubiks::twist::Twist;

const CORNERS: [CubePieceLocation; 8] = [
    CubePieceLocation::URF,
    CubePieceLocation::UFL,
    CubePieceLocation::ULB,
    CubePieceLocation::UBR,
    CubePieceLocation::DFR,
    CubePieceLocation::DLF,
    CubePieceLocation::DBL,
    CubePieceLocation::DRB,
];

const EDGES: [CubePieceLocation; 12] = [
    CubePieceLocation::UR,
    CubePieceLocation::UF,
    CubePieceLocation::UL,
    CubePieceLocation::UB,
    CubePieceLocation::DR,
    CubePieceLocation::DF,
    CubePieceLocation::DL,
    CubePieceLocation::DB,
    CubePieceLocation::FR,
    CubePieceLocation::FL,
    CubePieceLocation::BL,
    CubePieceLocation::BR,
];

const TWISTS: [Twist; 3] = [Twist::SOLVED, Twist::CW_120, Twist::CW_240];

#[test]
fn corner_twists_add_modulo_three() {
    assert_eq!(Twist::SOLVED.corner_add(Twist::SOLVED), Twist::SOLVED);
    assert_eq!(Twist::CW_120.corner_add(Twist::SOLVED), Twist::CW_120);
    assert_eq!(Twist::CW_120.corner_add(Twist::CW_120), Twist::CW_240);
    assert_eq!(Twist::CW_120.corner_add(Twist::CW_240), Twist::SOLVED);
    assert_eq!(Twist::CW_240.corner_add(Twist::CW_240), Twist::CW_120);
    for a in TWISTS {
        assert_eq!(a.corner_add(a.corner_opposite()), Twist::SOLVED);
        for b in TWISTS {
            assert_eq!(a.corner_add(b), b.corner_add(a));
            assert_eq!(
                a.corner_add(b).number_of_twists(),
                (a.number_of_twists() + b.number_of_twists()) % 3
            );
        }
    }
}

#[test]
fn edge_twists_add_modulo_two() {
    assert_eq!(Twist::SOLVED.edge_add(Twist::SOLVED), Twist::SOLVED);
    assert_eq!(Twist::FLIPPED.edge_add(Twist::SOLVED), Twist::FLIPPED);
    assert_eq!(Twist::SOLVED.edge_add(Twist::FLIPPED), Twist::FLIPPED);
    assert_eq!(Twist::FLIPPED.edge_add(Twist::FLIPPED), Twist::SOLVED);
    assert_eq!(Twist::SOLVED.edge_opposite(), Twist::SOLVED);
    assert_eq!(Twist::FLIPPED.edge_opposite(), Twist::FLIPPED);
    assert_eq!(Twist::SOLVED.flipped(), Twist::SOLVED);
    assert_eq!(Twist::FLIPPED.flipped(), Twist::FLIPPED);
}

#[test]
fn opposites_of_corner_twists() {
    assert_eq!(Twist::SOLVED.corner_opposite(), Twist::SOLVED);
    assert_eq!(Twist::CW_120.corner_opposite(), Twist::CW_240);
    assert_eq!(Twist::CW_240.corner_opposite(), Twist::CW_120);
}

#[test]
fn twists_count_their_steps() {
    assert_eq!(Twist::SOLVED.number_of_twists(), 0);
    assert_eq!(Twist::CW_120.number_of_twists(), 1);
    assert_eq!(Twist::CW_240.number_of_twists(), 2);
    assert_eq!(Twist::FLIPPED.number_of_twists(), 1);
    assert_eq!(Twist::solved(), Twist::SOLVED);
    assert!(Twist::SOLVED.is_solved());
    assert!(!Twist::CW_120.is_solved());
    assert!(!Twist::CW_240.is_solved());
}

#[test]
fn drawn_twists_are_of_their_kind_and_take_every_value() {
    let mut rng = rand::rng();
    let mut corner_seen = [false; 3];
    let mut edge_seen = [false; 3];
    for _ in 0..1000 {
        corner_seen[Twist::random_uniform_corner(&mut rng).number_of_twists() as usize] = true;
        edge_seen[Twist::random_uniform_edge(&mut rng).number_of_twists() as usize] = true;
    }
    assert_eq!(corner_seen, [true, true, true]);
    assert_eq!(edge_seen, [true, true, false]);
}

#[test]
fn faces_are_named_by_their_letter() {
    let faces = [Face::U, Face::D, Face::F, Face::B, Face::L, Face::R];
    let letters = ['U', 'D', 'F', 'B', 'L', 'R'];
    for (face, letter) in faces.iter().zip(letters) {
        assert_eq!(face.to_char(), letter);
        assert_eq!(face.to_string(), letter.to_string());
    }
}

#[test]
fn masks_count_their_faces() {
    let corner = FaceMask::from_face(Face::U)
        .or(FaceMask::from_face(Face::R))
        .or(FaceMask::from_face(Face::F));
    let edge = FaceMask::from_face(Face::D).or(FaceMask::from_face(Face::L));
    let face = FaceMask::from_face(Face::B);

    assert!(corner.is_corner());
    assert!(!corner.is_edge());
    assert!(edge.is_edge());
    assert!(!edge.is_corner());
    assert!(!face.is_corner());
    assert!(!face.is_edge());
    assert!(!FaceMask::none().is_corner());
    assert!(!FaceMask::none().is_edge());

    assert_eq!(corner.bits(), 0b100101);
    assert_eq!(edge.bits(), 0b010010);
    assert!(corner.has_face(Face::R));
    assert!(!corner.has_face(Face::L));
    assert!(corner.contains(FaceMask::from_face(Face::U).or(FaceMask::from_face(Face::F))));
    assert!(!corner.contains(edge));
    assert!(corner.contains(FaceMask::none()));
    assert_eq!(corner.or(corner), corner);
}

#[test]
fn masks_list_one_face_of_each_axis() {
    let corner = FaceMask::from_face(Face::R)
        .or(FaceMask::from_face(Face::F))
        .or(FaceMask::from_face(Face::U));
    assert_eq!(corner.faces(), vec![Face::U, Face::F, Face::R]);

    let edge = FaceMask::from_face(Face::L).or(FaceMask::from_face(Face::B));
    assert_eq!(edge.faces(), vec![Face::B, Face::L]);

    let both = FaceMask::from_face(Face::U).or(FaceMask::from_face(Face::D));
    assert_eq!(both.faces(), vec![Face::U]);
    assert_eq!(FaceMask::none().faces(), vec![]);
}

#[test]
fn locations_know_their_kind_and_faces() {
    assert_eq!(CORNER_COUNT, 8);
    assert_eq!(EDGE_COUNT, 12);
    assert_eq!(LOCATION_COUNT, 20);
    for (i, corner) in CORNERS.iter().enumerate() {
        assert!(corner.is_corner());
        assert!(!corner.is_edge());
        assert!(corner.mask().is_corner());
        assert_eq!(corner.get_faces().len(), 3);
        assert_eq!(corner.to_index(), i);
        assert_eq!(CubePieceLocation::from_index(i), *corner);
    }
    for (i, edge) in EDGES.iter().enumerate() {
        assert!(edge.is_edge());
        assert!(!edge.is_corner());
        assert!(edge.mask().is_edge());
        assert_eq!(edge.get_faces().len(), 2);
        assert_eq!(edge.to_index(), 8 + i);
        assert_eq!(CubePieceLocation::from_index(8 + i), *edge);
    }
    assert_eq!(
        CubePieceLocation::URF.get_faces(),
        vec![Face::U, Face::R, Face::F]
    );
    assert_eq!(
        CubePieceLocation::DLF.get_faces(),
        vec![Face::D, Face::L, Face::F]
    );
    assert_eq!(CubePieceLocation::DF.get_faces(), vec![Face::D, Face::F]);
    assert_eq!(CubePieceLocation::DL.get_faces(), vec![Face::D, Face::L]);
    assert_eq!(CubePieceLocation::BR.get_faces(), vec![Face::B, Face::R]);
    assert_eq!(
        CubePieceLocation::UBR.mask(),
        FaceMask::from_face(Face::U)
            .or(FaceMask::from_face(Face::B))
            .or(FaceMask::from_face(Face::R))
    );
    assert_eq!(CubePieceLocation::UFR, CubePieceLocation::URF);
    assert_eq!(CubePieceLocation::DLB, CubePieceLocation::DBL);
}

#[test]
fn pieces_twist_in_the_group_of_their_kind() {
    let corner = CubePiece::from_location(CubePieceLocation::DRB);
    assert!(corner.is_corner());
    assert!(!corner.is_edge());
    assert_eq!(corner.get_original_location(), CubePieceLocation::DRB);
    assert_eq!(corner.get_twist(), Twist::SOLVED);
    assert!(corner.is_solved(&CubePieceLocation::DRB));
    assert!(!corner.is_solved(&CubePieceLocation::DBL));
    assert_eq!(corner, CubePiece::corner(CubePieceLocation::DRB));

    let twisted = corner.twisted(Twist::CW_240);
    assert_eq!(twisted.get_twist(), Twist::CW_240);
    assert_eq!(twisted.get_original_location(), CubePieceLocation::DRB);
    assert!(!twisted.is_solved(&CubePieceLocation::DRB));
    assert_eq!(twisted.twisted(Twist::CW_240).get_twist(), Twist::CW_120);
    assert_eq!(twisted.twisted(Twist::CW_120), corner);

    let edge = CubePiece::from_location(CubePieceLocation::FL);
    assert!(edge.is_edge());
    assert!(!edge.is_corner());
    assert_eq!(edge, CubePiece::edge(CubePieceLocation::FL));
    let flipped = edge.twisted(Twist::FLIPPED);
    assert_eq!(flipped.get_twist(), Twist::FLIPPED);
    assert_eq!(flipped.twisted(Twist::FLIPPED), edge);
}

#[test]
fn stickers_are_named_from_their_own_face() {
    let names = [
        (CubePieceLocation::URF, ["URF", "RFU", "FUR"]),
        (CubePieceLocation::UFL, ["UFL", "FLU", "LUF"]),
        (CubePieceLocation::ULB, ["ULB", "LBU", "BUL"]),
        (CubePieceLocation::UBR, ["UBR", "BRU", "RUB"]),
        (CubePieceLocation::DFR, ["DFR", "FRD", "RDF"]),
        (CubePieceLocation::DLF, ["DLF", "LFD", "FDL"]),
        (CubePieceLocation::DBL, ["DBL", "BLD", "LDB"]),
        (CubePieceLocation::DRB, ["DRB", "RBD", "BDR"]),
    ];
    for (location, expected) in names {
        for (twist, name) in TWISTS.iter().zip(expected) {
            let sticker = CubeStickerLocation::new(location, *twist);
            assert_eq!(sticker.to_sticker_name(), name);
            assert_eq!(sticker.get_face().to_char(), name.chars().next().unwrap());
        }
    }
    let names = [
        (CubePieceLocation::UR, ["UR", "RU"]),
        (CubePieceLocation::UF, ["UF", "FU"]),
        (CubePieceLocation::UL, ["UL", "LU"]),
        (CubePieceLocation::UB, ["UB", "BU"]),
        (CubePieceLocation::DR, ["DR", "RD"]),
        (CubePieceLocation::DF, ["DF", "FD"]),
        (CubePieceLocation::DL, ["DL", "LD"]),
        (CubePieceLocation::DB, ["DB", "BD"]),
        (CubePieceLocation::FR, ["FR", "RF"]),
        (CubePieceLocation::FL, ["FL", "LF"]),
        (CubePieceLocation::BL, ["BL", "LB"]),
        (CubePieceLocation::BR, ["BR", "RB"]),
    ];
    for (location, expected) in names {
        for (twist, name) in TWISTS.iter().zip(expected) {
            let sticker = CubeStickerLocation::new(location, *twist);
            assert_eq!(sticker.to_sticker_name(), name);
        }
    }
}

#[test]
fn sticker_names_of_the_state_follow_the_pieces() {
    let mut cube = CubeState::solved();
    cube.apply_move(rubiks::moves::CubeMove::F);

    let up_front = CubeStickerLocation::new(CubePieceLocation::UF, Twist::SOLVED);
    let front_up = CubeStickerLocation::new(CubePieceLocation::UF, Twist::FLIPPED);
    assert_eq!(cube.get_edge_sticker_name(up_front), "LF");
    assert_eq!(cube.get_edge_sticker_name(front_up), "FL");

    let corner = CubeStickerLocation::new(CubePieceLocation::URF, Twist::SOLVED);
    assert_eq!(cube.get_corner_sticker_name(corner), "LUF");
    assert_eq!(
        cube.get_corner_sticker_name(corner),
        cube.get_sticker_origin(&corner).to_sticker_name()
    );
}

#[test]
fn the_identity_is_an_even_permutation() {
    assert_eq!(identity_permutation::<0>(), []);
    assert_eq!(identity_permutation::<1>(), [0]);
    assert_eq!(identity_permutation::<8>(), [0, 1, 2, 3, 4, 5, 6, 7]);
    assert!(permutation_parity(&identity_permutation::<12>()));
    assert!(permutation_parity(&[]));
}

#[test]
fn parity_counts_the_pairs_out_of_order() {
    assert!(!permutation_parity(&[1, 0]));
    assert!(!permutation_parity(&[1, 0, 2, 3]));
    assert!(permutation_parity(&[1, 0, 3, 2]));
    assert!(permutation_parity(&[1, 2, 0]));
    assert!(!permutation_parity(&[2, 1, 0]));
    assert!(!permutation_parity(&[1, 2, 3, 0]));
    assert!(permutation_parity(&[3, 2, 1, 0]));
    assert!(!permutation_parity(&[0, 1, 2, 3, 4, 5, 7, 6]));
}

#[test]
fn a_drawn_permutation_holds_every_number_once() {
    let mut rng = rand::rng();
    let mut moved = false;
    for _ in 0..200 {
        let permutation = random_uniform_permutation::<12, _>(&mut rng);
        let mut sorted = permutation;
        sorted.sort();
        assert_eq!(sorted, identity_permutation::<12>());
        moved = moved || permutation != identity_permutation::<12>();
    }
    assert!(moved);
}

#[test]
fn a_mask_names_the_slot_that_touches_its_faces() {
    for location in CORNERS.iter().chain(EDGES.iter()) {
        assert_eq!(CubePieceLocation::from_mask(location.mask()), Some(*location));
    }
    let up = FaceMask::from_face(Face::U);
    let down = FaceMask::from_face(Face::D);
    let front = FaceMask::from_face(Face::F);
    let right = FaceMask::from_face(Face::R);
    let left = FaceMask::from_face(Face::L);

    assert_eq!(
        CubePieceLocation::from_mask(right.or(up).or(front)),
        Some(CubePieceLocation::URF)
    );
    assert_eq!(
        CubePieceLocation::from_mask(left.or(down)),
        Some(CubePieceLocation::DL)
    );
    assert_eq!(CubePieceLocation::from_mask(FaceMask::none()), None);
    assert_eq!(CubePieceLocation::from_mask(up), None);
    assert_eq!(CubePieceLocation::from_mask(up.or(down)), None);
    assert_eq!(CubePieceLocation::from_mask(up.or(down).or(front)), None);
    assert_eq!(CubePieceLocation::from_mask(left.or(right).or(up)), None);
    assert_eq!(
        CubePieceLocation::from_mask(up.or(front).or(right).or(left)),
        None
    );
}

#[test]
fn stickers_of_one_slot_are_of_the_same_cubie() {
    let up = CubeStickerLocation::new(CubePieceLocation::URF, Twist::SOLVED);
    let right = CubeStickerLocation::new(CubePieceLocation::URF, Twist::CW_120);
    let other = CubeStickerLocation::new(CubePieceLocation::UBR, Twist::SOLVED);

    assert!(up.is_same_cubie(&right));
    assert!(up.is_same_cubie(&up));
    assert!(!up.is_same_cubie(&other));
    assert_eq!(up.get_face_mask(), CubePieceLocation::URF.mask());
    assert_eq!(right.get_face_mask(), up.get_face_mask());
}

#[test]
fn stickers_turn_round_their_slot() {
    let up = CubeStickerLocation::new(CubePieceLocation::URF, Twist::SOLVED);
    assert_eq!(up.twisted(Twist::SOLVED).to_sticker_name(), "URF");
    assert_eq!(up.twisted(Twist::CW_120).to_sticker_name(), "RFU");
    assert_eq!(up.twisted(Twist::CW_240).to_sticker_name(), "FUR");
    assert_eq!(
        up.twisted(Twist::CW_240).twisted(Twist::CW_240).to_sticker_name(),
        "RFU"
    );
    assert_eq!(up.twisted(Twist::CW_120).twisted(Twist::CW_240), up);

    let edge = CubeStickerLocation::new(CubePieceLocation::DB, Twist::SOLVED);
    assert_eq!(edge.inverted().to_sticker_name(), "BD");
    assert_eq!(edge.inverted().inverted(), edge);
    assert_eq!(edge.twisted(Twist::FLIPPED), edge.inverted());
    assert_eq!(edge.twisted(Twist::SOLVED), edge);
}

#[test]
fn a_number_of_steps_gives_its_twist() {
    assert_eq!(Twist::from(0), Twist::SOLVED);
    assert_eq!(Twist::from(1), Twist::CW_120);
    assert_eq!(Twist::from(2), Twist::CW_240);
    assert_eq!(Twist::from(3), Twist::SOLVED);
    assert_eq!(Twist::from(255), Twist::SOLVED);
    for twist in TWISTS {
        assert_eq!(Twist::from(twist.number_of_twists()), twist);
    }
}
