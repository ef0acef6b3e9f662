use crate::cube::{sticker_origin, well_formed};
use crate::facelets::{cube_string, face_in_order, facelet_sticker, origin_face, shown_face};
use crate::faces::Face;
use crate::invariants::{
    corner_permutation, distinct_pieces, edge_permutation, lemma_permutations,
};
use crate::location::CubePieceLocation;
use crate::permutations::{lemma_permutation_sum, weight_sum, weight_total};
use crate::piece::CubePiece;
use crate::stickers::CubeStickerLocation;
use crate::twist::Twist;
use vstd::prelude::*;

verus! {

/// The number of times that `letter` occurs among the first `upto`
/// characters of `text`.
pub open spec fn occurrences_upto(text: Seq<char>, letter: char, upto: int) -> int
    decreases upto,
{
    if upto <= 0 {
        0
    } else {
        occurrences_upto(text, letter, upto - 1) + if text[upto - 1] == letter {
            1int
        } else {
            0int
        }
    }
}

/// The number of times that `letter` occurs in `text`.
pub open spec fn occurrences(text: Seq<char>, letter: char) -> int {
    occurrences_upto(text, letter, text.len() as int)
}

/// One if the colour of `face` shows at `sticker`, zero if not.
pub open spec fn shows(pieces: Seq<CubePiece>, sticker: CubeStickerLocation, face: Face) -> int {
    if origin_face(pieces, sticker) == face {
        1
    } else {
        0
    }
}

/// The number of places among the first `upto` of the fifty-four at which
/// the colour of `face` shows.
pub open spec fn shown_count(pieces: Seq<CubePiece>, face: Face, upto: int) -> int
    decreases upto,
{
    if upto <= 0 {
        0
    } else {
        shown_count(pieces, face, upto - 1) + if shown_face(pieces, upto - 1) == face {
            1int
        } else {
            0int
        }
    }
}

/// The number of facelets of the slot at place `i` at which the colour of
/// `face` shows.
pub open spec fn slot_shows(pieces: Seq<CubePiece>, face: Face, i: int) -> int {
    let location = CubePieceLocation::at(i);
    shows(pieces, CubeStickerLocation { piece_location: location, twist: Twist::Solved }, face)
        + shows(
        pieces,
        CubeStickerLocation { piece_location: location, twist: Twist::Cw120 },
        face,
    ) + if i < 8 {
        shows(pieces, CubeStickerLocation { piece_location: location, twist: Twist::Cw240 }, face)
    } else {
        0
    }
}

/// The number of facelets of the slots at the first `upto` places at which
/// the colour of `face` shows.
pub open spec fn slots_show(pieces: Seq<CubePiece>, face: Face, upto: int) -> int
    decreases upto,
{
    if upto <= 0 {
        0
    } else {
        slots_show(pieces, face, upto - 1) + slot_shows(pieces, face, upto - 1)
    }
}

/// The number of stickers of the piece that belongs at place `home` that
/// have the colour of `face`.
pub open spec fn touches(home: int, face: Face) -> int {
    let faces = CubePieceLocation::at(home).faces();
    (if faces[0] == face {
        1int
    } else {
        0int
    }) + (if faces[1] == face {
        1int
    } else {
        0int
    }) + (if faces.len() == 3 && faces[2] == face {
        1int
    } else {
        0int
    })
}

/// Place `place` of block `block` is place `9 * block + place` of the
/// fifty-four.
proof fn lemma_place(block: int, place: int)
    requires
        0 <= block,
        0 <= place < 9,
    ensures
        (9 * block + place) / 9 == block,
        (9 * block + place) % 9 == place,
{
}

/// One if the colour of `face` shows at place `place` of block `block`,
/// zero if not.
pub open spec fn place_shows(pieces: Seq<CubePiece>, face: Face, block: int, place: int) -> int {
    if place == 4 {
        if face_in_order(block) == face {
            1
        } else {
            0
        }
    } else if place < 4 {
        shows(pieces, facelet_sticker(block, place), face)
    } else {
        shows(pieces, facelet_sticker(block, place - 1), face)
    }
}

/// The count of a place of the fifty-four is the count of its place in its
/// block.
proof fn lemma_place_shows(pieces: Seq<CubePiece>, face: Face, block: int, place: int)
    requires
        0 <= block,
        0 <= place < 9,
    ensures
        (if shown_face(pieces, 9 * block + place) == face {
            1int
        } else {
            0int
        }) == place_shows(pieces, face, block, place),
{
    lemma_place(block, place);
}

/// The number of places of block `block` at which the colour of `face`
/// shows.
pub open spec fn block_shows(pieces: Seq<CubePiece>, face: Face, block: int) -> int {
    place_shows(pieces, face, block, 0) + place_shows(pieces, face, block, 1) + place_shows(
        pieces,
        face,
        block,
        2,
    ) + place_shows(pieces, face, block, 3) + place_shows(pieces, face, block, 4) + place_shows(
        pieces,
        face,
        block,
        5,
    ) + place_shows(pieces, face, block, 6) + place_shows(pieces, face, block, 7) + place_shows(
        pieces,
        face,
        block,
        8,
    )
}

/// A block adds its own count to the count of the blocks before it.
proof fn lemma_block_shows(pieces: Seq<CubePiece>, face: Face, block: int)
    requires
        0 <= block,
    ensures
        shown_count(pieces, face, 9 * block + 9) == shown_count(pieces, face, 9 * block)
            + block_shows(pieces, face, block),
{
    let start = 9 * block;
    lemma_place_shows(pieces, face, block, 0);
    lemma_place_shows(pieces, face, block, 1);
    lemma_place_shows(pieces, face, block, 2);
    lemma_place_shows(pieces, face, block, 3);
    lemma_place_shows(pieces, face, block, 4);
    lemma_place_shows(pieces, face, block, 5);
    lemma_place_shows(pieces, face, block, 6);
    lemma_place_shows(pieces, face, block, 7);
    lemma_place_shows(pieces, face, block, 8);
    assert(shown_count(pieces, face, start + 1) == shown_count(pieces, face, start) + place_shows(
        pieces,
        face,
        block,
        0,
    ));
    assert(shown_count(pieces, face, start + 2) == shown_count(pieces, face, start + 1)
        + place_shows(pieces, face, block, 1));
    assert(shown_count(pieces, face, start + 3) == shown_count(pieces, face, start + 2)
        + place_shows(pieces, face, block, 2));
    assert(shown_count(pieces, face, start + 4) == shown_count(pieces, face, start + 3)
        + place_shows(pieces, face, block, 3));
    assert(shown_count(pieces, face, start + 5) == shown_count(pieces, face, start + 4)
        + place_shows(pieces, face, block, 4));
    assert(shown_count(pieces, face, start + 6) == shown_count(pieces, face, start + 5)
        + place_shows(pieces, face, block, 5));
    assert(shown_count(pieces, face, start + 7) == shown_count(pieces, face, start + 6)
        + place_shows(pieces, face, block, 6));
    assert(shown_count(pieces, face, start + 8) == shown_count(pieces, face, start + 7)
        + place_shows(pieces, face, block, 7));
    assert(shown_count(pieces, face, start + 9) == shown_count(pieces, face, start + 8)
        + place_shows(pieces, face, block, 8));
}

/// The fifty-four places, block by block.
pub proof fn lemma_shown_by_block(pieces: Seq<CubePiece>, face: Face)
    ensures
        shown_count(pieces, face, 54) == block_shows(pieces, face, 0) + block_shows(pieces, face, 1)
            + block_shows(pieces, face, 2) + block_shows(pieces, face, 3) + block_shows(
            pieces,
            face,
            4,
        ) + block_shows(pieces, face, 5),
{
    lemma_block_shows(pieces, face, 0);
    lemma_block_shows(pieces, face, 1);
    lemma_block_shows(pieces, face, 2);
    lemma_block_shows(pieces, face, 3);
    lemma_block_shows(pieces, face, 4);
    lemma_block_shows(pieces, face, 5);
}

/// The fifty-four places are the six centres and the facelets of the twenty
/// slots: exactly one centre has the colour of a face.
pub proof fn lemma_shown_by_slot(pieces: Seq<CubePiece>, face: Face)
    ensures
        shown_count(pieces, face, 54) == 1 + slots_show(pieces, face, 20),
{
    lemma_shown_by_block(pieces, face);
    reveal(facelet_sticker);
    reveal(CubePieceLocation::at);
    reveal_with_fuel(slots_show, 21);
}

/// The facelets of a slot show the colours of the stickers of the piece that
/// sits in it, each once.
pub proof fn lemma_slot_shows(pieces: Seq<CubePiece>, face: Face, i: int)
    requires
        well_formed(pieces),
        0 <= i < 20,
    ensures
        slot_shows(pieces, face, i) == touches(pieces[i].piece.index(), face),
{
    reveal(origin_face);
    let location = CubePieceLocation::at(i);
    let piece = pieces[i];
    CubePieceLocation::lemma_at(i);
    piece.piece.lemma_index();
    assert(piece.wf() && (piece.piece.corner() <==> i < 8));
    let faces = piece.piece.faces();
    let first = sticker_origin(
        pieces,
        CubeStickerLocation { piece_location: location, twist: Twist::Solved },
    );
    let second = sticker_origin(
        pieces,
        CubeStickerLocation { piece_location: location, twist: Twist::Cw120 },
    );
    let third = sticker_origin(
        pieces,
        CubeStickerLocation { piece_location: location, twist: Twist::Cw240 },
    );
    assert(first.face() == faces[first.twist.steps() as int % faces.len() as int]);
    assert(second.face() == faces[second.twist.steps() as int % faces.len() as int]);
    assert(third.face() == faces[third.twist.steps() as int % faces.len() as int]);
}

/// The number of stickers with the colour of `face` on the pieces that sit
/// in the slots at the places from `from` up to, and not including, `to`.
pub open spec fn pieces_touch(pieces: Seq<CubePiece>, face: Face, from: int, to: int) -> int
    decreases to - from,
{
    if to <= from {
        0
    } else {
        pieces_touch(pieces, face, from, to - 1) + touches(pieces[to - 1].piece.index(), face)
    }
}

/// The facelets of the slots show what the stickers of the pieces in them
/// have.
proof fn lemma_slots_show(pieces: Seq<CubePiece>, face: Face, upto: int)
    requires
        well_formed(pieces),
        0 <= upto <= 20,
    ensures
        slots_show(pieces, face, upto) == pieces_touch(pieces, face, 0, upto),
    decreases upto,
{
    if upto > 0 {
        lemma_slots_show(pieces, face, upto - 1);
        lemma_slot_shows(pieces, face, upto - 1);
    }
}

/// The count of the stickers on the pieces of a range of slots is the sum of
/// the counts of its two parts.
proof fn lemma_pieces_touch_split(
    pieces: Seq<CubePiece>,
    face: Face,
    from: int,
    middle: int,
    to: int,
)
    requires
        from <= middle <= to,
    ensures
        pieces_touch(pieces, face, from, to) == pieces_touch(pieces, face, from, middle)
            + pieces_touch(pieces, face, middle, to),
    decreases to - middle,
{
    if to > middle {
        lemma_pieces_touch_split(pieces, face, from, middle, to - 1);
    }
}

/// The stickers on the corners in the first corner slots, counted as weights
/// of the arrangement of the corners.
proof fn lemma_corners_touch(pieces: Seq<CubePiece>, face: Face, upto: int)
    requires
        well_formed(pieces),
        0 <= upto <= 8,
    ensures
        pieces_touch(pieces, face, 0, upto) == weight_sum(
            corner_permutation(pieces),
            |home: int| touches(home, face),
            upto,
        ),
    decreases upto,
{
    if upto > 0 {
        lemma_corners_touch(pieces, face, upto - 1);
        pieces[upto - 1].piece.lemma_index();
    }
}

/// The stickers on the edges in the first edge slots, counted as weights of
/// the arrangement of the edges.
proof fn lemma_edges_touch(pieces: Seq<CubePiece>, face: Face, upto: int)
    requires
        well_formed(pieces),
        0 <= upto <= 12,
    ensures
        pieces_touch(pieces, face, 8, 8 + upto) == weight_sum(
            edge_permutation(pieces),
            |home: int| touches(8 + home, face),
            upto,
        ),
    decreases upto,
{
    if upto > 0 {
        lemma_edges_touch(pieces, face, upto - 1);
        pieces[8 + upto - 1].piece.lemma_index();
        assert(pieces[8 + upto - 1].wf() && (pieces[8 + upto - 1].piece.corner() <==> 8 + upto - 1
            < 8));
    }
}

/// Four corners and four edges have a sticker of the colour of a face.
proof fn lemma_eight_touch(face: Face)
    ensures
        weight_total(|home: int| touches(home, face), 8) == 4,
        weight_total(|home: int| touches(8 + home, face), 12) == 4,
{
    reveal(CubePieceLocation::at);
    assert(weight_total(|home: int| touches(home, face), 8) == 4) by {
        reveal_with_fuel(weight_total, 9);
    }
    assert(weight_total(|home: int| touches(8 + home, face), 12) == 4) by {
        reveal_with_fuel(weight_total, 13);
    }
}

/// In a state in which no piece sits in two slots, the colour of every face
/// shows at nine of the fifty-four places.
pub proof fn lemma_nine_of_each(pieces: Seq<CubePiece>, face: Face)
    requires
        well_formed(pieces),
        distinct_pieces(pieces),
    ensures
        shown_count(pieces, face, 54) == 9,
{
    lemma_shown_by_slot(pieces, face);
    lemma_slots_show(pieces, face, 20);
    lemma_pieces_touch_split(pieces, face, 0, 8, 20);
    lemma_corners_touch(pieces, face, 8);
    lemma_edges_touch(pieces, face, 12);
    lemma_permutations(pieces);
    lemma_permutation_sum(corner_permutation(pieces), |home: int| touches(home, face));
    lemma_permutation_sum(edge_permutation(pieces), |home: int| touches(8 + home, face));
    lemma_eight_touch(face);
}

/// The letters of the string are the colours that show.
proof fn lemma_letters_shown(pieces: Seq<CubePiece>, face: Face, upto: int)
    requires
        0 <= upto <= 54,
    ensures
        occurrences_upto(cube_string(pieces), face.letter(), upto) == shown_count(
            pieces,
            face,
            upto,
        ),
    decreases upto,
{
    if upto > 0 {
        lemma_letters_shown(pieces, face, upto - 1);
        assert(cube_string(pieces)[upto - 1] == shown_face(pieces, upto - 1).letter());
    }
}

/// In a state in which no piece sits in two slots, the string that writes
/// the state holds the letter of every face nine times.
pub proof fn lemma_nine_letters(pieces: Seq<CubePiece>, face: Face)
    requires
        well_formed(pieces),
        distinct_pieces(pieces),
    ensures
        cube_string(pieces).len() == 54,
        occurrences(cube_string(pieces), face.letter()) == 9,
{
    lemma_nine_of_each(pieces, face);
    lemma_letters_shown(pieces, face, 54);
}

} // verus!
