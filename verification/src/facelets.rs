use crate::cube::{sticker_origin, CubeState};
use crate::facelet_laws::{lemma_nine_letters, occurrences};
use crate::faces::Face;
use crate::location::CubePieceLocation;
use crate::piece::CubePiece;
use crate::stickers::CubeStickerLocation;
use crate::twist::Twist;
use vstd::prelude::*;
use vstd::string::*;

verus! {

/// The facelet at place `place` of the eight facelets of block `block` that
/// belong to a piece: the faces come in the order U, R, F, D, L, B, and on
/// each face the facelets row by row, the centre left out.
#[verifier::opaque]
pub open spec fn facelet_sticker(block: int, place: int) -> CubeStickerLocation {
    if block == 0 {
        if place == 0 {
            CubeStickerLocation { piece_location: CubePieceLocation::ULB, twist: Twist::Solved }
        } else if place == 1 {
            CubeStickerLocation { piece_location: CubePieceLocation::UB, twist: Twist::Solved }
        } else if place == 2 {
            CubeStickerLocation { piece_location: CubePieceLocation::UBR, twist: Twist::Solved }
        } else if place == 3 {
            CubeStickerLocation { piece_location: CubePieceLocation::UL, twist: Twist::Solved }
        } else if place == 4 {
            CubeStickerLocation { piece_location: CubePieceLocation::UR, twist: Twist::Solved }
        } else if place == 5 {
            CubeStickerLocation { piece_location: CubePieceLocation::UFL, twist: Twist::Solved }
        } else if place == 6 {
            CubeStickerLocation { piece_location: CubePieceLocation::UF, twist: Twist::Solved }
        } else {
            CubeStickerLocation { piece_location: CubePieceLocation::URF, twist: Twist::Solved }
        }
    } else if block == 1 {
        if place == 0 {
            CubeStickerLocation { piece_location: CubePieceLocation::URF, twist: Twist::Cw120 }
        } else if place == 1 {
            CubeStickerLocation { piece_location: CubePieceLocation::UR, twist: Twist::Cw120 }
        } else if place == 2 {
            CubeStickerLocation { piece_location: CubePieceLocation::UBR, twist: Twist::Cw240 }
        } else if place == 3 {
            CubeStickerLocation { piece_location: CubePieceLocation::FR, twist: Twist::Cw120 }
        } else if place == 4 {
            CubeStickerLocation { piece_location: CubePieceLocation::BR, twist: Twist::Cw120 }
        } else if place == 5 {
            CubeStickerLocation { piece_location: CubePieceLocation::DFR, twist: Twist::Cw240 }
        } else if place == 6 {
            CubeStickerLocation { piece_location: CubePieceLocation::DR, twist: Twist::Cw120 }
        } else {
            CubeStickerLocation { piece_location: CubePieceLocation::DRB, twist: Twist::Cw120 }
        }
    } else if block == 2 {
        if place == 0 {
            CubeStickerLocation { piece_location: CubePieceLocation::UFL, twist: Twist::Cw120 }
        } else if place == 1 {
            CubeStickerLocation { piece_location: CubePieceLocation::UF, twist: Twist::Cw120 }
        } else if place == 2 {
            CubeStickerLocation { piece_location: CubePieceLocation::URF, twist: Twist::Cw240 }
        } else if place == 3 {
            CubeStickerLocation { piece_location: CubePieceLocation::FL, twist: Twist::Solved }
        } else if place == 4 {
            CubeStickerLocation { piece_location: CubePieceLocation::FR, twist: Twist::Solved }
        } else if place == 5 {
            CubeStickerLocation { piece_location: CubePieceLocation::DLF, twist: Twist::Cw240 }
        } else if place == 6 {
            CubeStickerLocation { piece_location: CubePieceLocation::DF, twist: Twist::Cw120 }
        } else {
            CubeStickerLocation { piece_location: CubePieceLocation::DFR, twist: Twist::Cw120 }
        }
    } else if block == 3 {
        if place == 0 {
            CubeStickerLocation { piece_location: CubePieceLocation::DLF, twist: Twist::Solved }
        } else if place == 1 {
            CubeStickerLocation { piece_location: CubePieceLocation::DF, twist: Twist::Solved }
        } else if place == 2 {
            CubeStickerLocation { piece_location: CubePieceLocation::DFR, twist: Twist::Solved }
        } else if place == 3 {
            CubeStickerLocation { piece_location: CubePieceLocation::DL, twist: Twist::Solved }
        } else if place == 4 {
            CubeStickerLocation { piece_location: CubePieceLocation::DR, twist: Twist::Solved }
        } else if place == 5 {
            CubeStickerLocation { piece_location: CubePieceLocation::DBL, twist: Twist::Solved }
        } else if place == 6 {
            CubeStickerLocation { piece_location: CubePieceLocation::DB, twist: Twist::Solved }
        } else {
            CubeStickerLocation { piece_location: CubePieceLocation::DRB, twist: Twist::Solved }
        }
    } else if block == 4 {
        if place == 0 {
            CubeStickerLocation { piece_location: CubePieceLocation::ULB, twist: Twist::Cw120 }
        } else if place == 1 {
            CubeStickerLocation { piece_location: CubePieceLocation::UL, twist: Twist::Cw120 }
        } else if place == 2 {
            CubeStickerLocation { piece_location: CubePieceLocation::UFL, twist: Twist::Cw240 }
        } else if place == 3 {
            CubeStickerLocation { piece_location: CubePieceLocation::BL, twist: Twist::Cw120 }
        } else if place == 4 {
            CubeStickerLocation { piece_location: CubePieceLocation::FL, twist: Twist::Cw120 }
        } else if place == 5 {
            CubeStickerLocation { piece_location: CubePieceLocation::DBL, twist: Twist::Cw240 }
        } else if place == 6 {
            CubeStickerLocation { piece_location: CubePieceLocation::DL, twist: Twist::Cw120 }
        } else {
            CubeStickerLocation { piece_location: CubePieceLocation::DLF, twist: Twist::Cw120 }
        }
    } else {
        if place == 0 {
            CubeStickerLocation { piece_location: CubePieceLocation::UBR, twist: Twist::Cw120 }
        } else if place == 1 {
            CubeStickerLocation { piece_location: CubePieceLocation::UB, twist: Twist::Cw120 }
        } else if place == 2 {
            CubeStickerLocation { piece_location: CubePieceLocation::ULB, twist: Twist::Cw240 }
        } else if place == 3 {
            CubeStickerLocation { piece_location: CubePieceLocation::BR, twist: Twist::Solved }
        } else if place == 4 {
            CubeStickerLocation { piece_location: CubePieceLocation::BL, twist: Twist::Solved }
        } else if place == 5 {
            CubeStickerLocation { piece_location: CubePieceLocation::DRB, twist: Twist::Cw240 }
        } else if place == 6 {
            CubeStickerLocation { piece_location: CubePieceLocation::DB, twist: Twist::Cw120 }
        } else {
            CubeStickerLocation { piece_location: CubePieceLocation::DBL, twist: Twist::Cw120 }
        }
    }
}

/// The face at place `block` of the order in which the faces are written.
pub open spec fn face_in_order(block: int) -> Face {
    if block == 0 {
        Face::U
    } else if block == 1 {
        Face::R
    } else if block == 2 {
        Face::F
    } else if block == 3 {
        Face::D
    } else if block == 4 {
        Face::L
    } else {
        Face::B
    }
}

/// The face whose colour shows at `sticker`: the face of the solved cube on
/// which the facelet lies that has come there.
#[verifier::opaque]
pub open spec fn origin_face(pieces: Seq<CubePiece>, sticker: CubeStickerLocation) -> Face {
    sticker_origin(pieces, sticker).face()
}

/// The face whose colour shows at place `n` of the fifty-four facelets: nine
/// to a face, the fifth of each nine being the face's own centre, and every
/// other the facelet of the solved cube that has come to that place.
pub open spec fn shown_face(pieces: Seq<CubePiece>, n: int) -> Face {
    let block = n / 9;
    let place = n % 9;
    if place == 4 {
        face_in_order(block)
    } else if place < 4 {
        origin_face(pieces, facelet_sticker(block, place))
    } else {
        origin_face(pieces, facelet_sticker(block, place - 1))
    }
}

/// The fifty-four letters that write the state, face by face.
pub open spec fn cube_string(pieces: Seq<CubePiece>) -> Seq<char> {
    Seq::new(54, |n: int| shown_face(pieces, n).letter())
}

/// The facelet at place `place` of the eight facelets of block `block` that
/// belong to a piece.
pub fn facelet_position(block: usize, place: usize) -> (sticker: CubeStickerLocation)
    requires
        block < 6,
        place < 8,
    ensures
        sticker == facelet_sticker(block as int, place as int),
{
    proof {
        reveal(facelet_sticker);
    }
    match block {
        0 => match place {
            0 => CubeStickerLocation { piece_location: CubePieceLocation::ULB, twist: Twist::Solved },
            1 => CubeStickerLocation { piece_location: CubePieceLocation::UB, twist: Twist::Solved },
            2 => CubeStickerLocation { piece_location: CubePieceLocation::UBR, twist: Twist::Solved },
            3 => CubeStickerLocation { piece_location: CubePieceLocation::UL, twist: Twist::Solved },
            4 => CubeStickerLocation { piece_location: CubePieceLocation::UR, twist: Twist::Solved },
            5 => CubeStickerLocation { piece_location: CubePieceLocation::UFL, twist: Twist::Solved },
            6 => CubeStickerLocation { piece_location: CubePieceLocation::UF, twist: Twist::Solved },
            _ => CubeStickerLocation { piece_location: CubePieceLocation::URF, twist: Twist::Solved },
        },
        1 => match place {
            0 => CubeStickerLocation { piece_location: CubePieceLocation::URF, twist: Twist::Cw120 },
            1 => CubeStickerLocation { piece_location: CubePieceLocation::UR, twist: Twist::Cw120 },
            2 => CubeStickerLocation { piece_location: CubePieceLocation::UBR, twist: Twist::Cw240 },
            3 => CubeStickerLocation { piece_location: CubePieceLocation::FR, twist: Twist::Cw120 },
            4 => CubeStickerLocation { piece_location: CubePieceLocation::BR, twist: Twist::Cw120 },
            5 => CubeStickerLocation { piece_location: CubePieceLocation::DFR, twist: Twist::Cw240 },
            6 => CubeStickerLocation { piece_location: CubePieceLocation::DR, twist: Twist::Cw120 },
            _ => CubeStickerLocation { piece_location: CubePieceLocation::DRB, twist: Twist::Cw120 },
        },
        2 => match place {
            0 => CubeStickerLocation { piece_location: CubePieceLocation::UFL, twist: Twist::Cw120 },
            1 => CubeStickerLocation { piece_location: CubePieceLocation::UF, twist: Twist::Cw120 },
            2 => CubeStickerLocation { piece_location: CubePieceLocation::URF, twist: Twist::Cw240 },
            3 => CubeStickerLocation { piece_location: CubePieceLocation::FL, twist: Twist::Solved },
            4 => CubeStickerLocation { piece_location: CubePieceLocation::FR, twist: Twist::Solved },
            5 => CubeStickerLocation { piece_location: CubePieceLocation::DLF, twist: Twist::Cw240 },
            6 => CubeStickerLocation { piece_location: CubePieceLocation::DF, twist: Twist::Cw120 },
            _ => CubeStickerLocation { piece_location: CubePieceLocation::DFR, twist: Twist::Cw120 },
        },
        3 => match place {
            0 => CubeStickerLocation { piece_location: CubePieceLocation::DLF, twist: Twist::Solved },
            1 => CubeStickerLocation { piece_location: CubePieceLocation::DF, twist: Twist::Solved },
            2 => CubeStickerLocation { piece_location: CubePieceLocation::DFR, twist: Twist::Solved },
            3 => CubeStickerLocation { piece_location: CubePieceLocation::DL, twist: Twist::Solved },
            4 => CubeStickerLocation { piece_location: CubePieceLocation::DR, twist: Twist::Solved },
            5 => CubeStickerLocation { piece_location: CubePieceLocation::DBL, twist: Twist::Solved },
            6 => CubeStickerLocation { piece_location: CubePieceLocation::DB, twist: Twist::Solved },
            _ => CubeStickerLocation { piece_location: CubePieceLocation::DRB, twist: Twist::Solved },
        },
        4 => match place {
            0 => CubeStickerLocation { piece_location: CubePieceLocation::ULB, twist: Twist::Cw120 },
            1 => CubeStickerLocation { piece_location: CubePieceLocation::UL, twist: Twist::Cw120 },
            2 => CubeStickerLocation { piece_location: CubePieceLocation::UFL, twist: Twist::Cw240 },
            3 => CubeStickerLocation { piece_location: CubePieceLocation::BL, twist: Twist::Cw120 },
            4 => CubeStickerLocation { piece_location: CubePieceLocation::FL, twist: Twist::Cw120 },
            5 => CubeStickerLocation { piece_location: CubePieceLocation::DBL, twist: Twist::Cw240 },
            6 => CubeStickerLocation { piece_location: CubePieceLocation::DL, twist: Twist::Cw120 },
            _ => CubeStickerLocation { piece_location: CubePieceLocation::DLF, twist: Twist::Cw120 },
        },
        _ => match place {
            0 => CubeStickerLocation { piece_location: CubePieceLocation::UBR, twist: Twist::Cw120 },
            1 => CubeStickerLocation { piece_location: CubePieceLocation::UB, twist: Twist::Cw120 },
            2 => CubeStickerLocation { piece_location: CubePieceLocation::ULB, twist: Twist::Cw240 },
            3 => CubeStickerLocation { piece_location: CubePieceLocation::BR, twist: Twist::Solved },
            4 => CubeStickerLocation { piece_location: CubePieceLocation::BL, twist: Twist::Solved },
            5 => CubeStickerLocation { piece_location: CubePieceLocation::DRB, twist: Twist::Cw240 },
            6 => CubeStickerLocation { piece_location: CubePieceLocation::DB, twist: Twist::Cw120 },
            _ => CubeStickerLocation { piece_location: CubePieceLocation::DBL, twist: Twist::Cw120 },
        },
    }
}

/// The face at place `block` of the order U, R, F, D, L, B.
pub fn face_at(block: usize) -> (face: Face)
    requires
        block < 6,
    ensures
        face == face_in_order(block as int),
{
    match block {
        0 => Face::U,
        1 => Face::R,
        2 => Face::F,
        3 => Face::D,
        4 => Face::L,
        _ => Face::B,
    }
}

/// Writes the state as fifty-four letters, nine for each face in the order
/// U, R, F, D, L, B: each letter names the face whose colour shows at the
/// facelet. The string holds the letter of every face nine times.
pub fn make_cube_string(cube: &CubeState) -> (cube_string: String)
    ensures
        cube_string@ == self::cube_string(cube@),
        cube_string@.len() == 54,
        forall|face: Face| occurrences(cube_string@, #[trigger] face.letter()) == 9,
{
    proof {
        use_type_invariant(cube);
        assert forall|face: Face|
            occurrences(self::cube_string(cube@), #[trigger] face.letter()) == 9 by {
            lemma_nine_letters(cube@, face);
        }
    }
    let mut cube_string = String::new();
    let ghost letters = self::cube_string(cube@);
    let mut block: usize = 0;
    while block < 6
        invariant
            block <= 6,
            letters == self::cube_string(cube@),
            cube_string@ == letters.subrange(0, 9 * block),
        decreases 6 - block,
    {
        let mut place: usize = 0;
        while place < 9
            invariant
                block < 6,
                place <= 9,
                letters == self::cube_string(cube@),
                cube_string@ == letters.subrange(0, 9 * block + place),
            decreases 9 - place,
        {
            let face = if place == 4 {
                face_at(block)
            } else if place < 4 {
                cube.get_sticker_origin(&facelet_position(block, place)).get_face()
            } else {
                cube.get_sticker_origin(&facelet_position(block, place - 1)).get_face()
            };
            let letter = face.to_string();
            cube_string.append(letter.as_str());
            proof {
                reveal(origin_face);
                let n = 9 * block + place;
                assert(n / 9 == block && n % 9 == place) by (nonlinear_arith)
                    requires
                        n == 9 * block + place,
                        place < 9,
                ;
                assert(letters[n as int] == shown_face(cube@, n as int).letter());
                assert(cube_string@ =~= letters.subrange(0, n + 1));
            }
            place = place + 1;
        }
        block = block + 1;
    }
    assert(cube_string@ =~= letters);
    cube_string
}

} // verus!
