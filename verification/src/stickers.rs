use crate::faces::{Face, FaceMask};
use crate::location::CubePieceLocation;
use crate::twist::Twist;
use vstd::prelude::*;
use vstd::string::*;

verus! {

/// One facelet of the cube: a slot and the number of steps from the slot's
/// first face to the face that the facelet lies on.
#[derive(Debug, Clone, Copy, PartialEq, Eq, Hash, Structural)]
pub struct CubeStickerLocation {
    pub piece_location: CubePieceLocation,
    pub twist: Twist,
}

/// A facelet, under the name used where corners and edges are told apart.
pub type StickerLocation = CubeStickerLocation;

/// A facelet of a corner slot.
pub type CornerSticker = CubeStickerLocation;

/// A facelet of an edge slot.
pub type EdgeSticker = CubeStickerLocation;

impl CubeStickerLocation {
    /// The faces of the slot, turned so that the facelet's own face comes
    /// first.
    pub open spec fn faces(self) -> Seq<Face> {
        let faces = self.piece_location.faces();
        Seq::new(faces.len(), |i: int| faces[(i + self.twist.steps()) % (faces.len() as int)])
    }

    /// The face that the facelet lies on.
    pub open spec fn face(self) -> Face {
        self.faces()[0]
    }

    /// The name of the facelet: the letters of [`CubeStickerLocation::faces`].
    pub open spec fn name(self) -> Seq<char> {
        self.faces().map_values(|f: Face| f.letter())
    }

    /// The facelet lies on a face of its slot: an edge has no third face.
    pub open spec fn wf(self) -> bool {
        self.piece_location.edge() ==> self.twist.is_edge_twist()
    }

    /// The facelet that lies `twist` steps further round the slot.
    pub open spec fn turned(self, twist: Twist) -> CubeStickerLocation {
        CubeStickerLocation {
            piece_location: self.piece_location,
            twist: if self.piece_location.corner() {
                self.twist.corner_sum(twist)
            } else {
                self.twist.edge_sum(twist)
            },
        }
    }

    /// The facelet of `piece_location` that lies `twist` steps from the slot's
    /// first face.
    pub fn new(piece_location: CubePieceLocation, twist: Twist) -> (sticker: CubeStickerLocation)
        ensures
            sticker.piece_location == piece_location,
            sticker.twist == twist,
    {
        CubeStickerLocation { piece_location, twist }
    }

    /// Whether the two facelets belong to one slot.
    pub fn is_same_cubie(&self, other: &CubeStickerLocation) -> (r: bool)
        ensures
            r == (self.piece_location == other.piece_location),
    {
        proof {
            self.piece_location.lemma_index();
            other.piece_location.lemma_index();
        }
        self.piece_location.to_index() == other.piece_location.to_index()
    }

    /// The facelet that lies `twist` steps further round the slot: on a
    /// corner the steps count modulo three, on an edge modulo two.
    pub fn twisted(&self, twist: Twist) -> (sticker: CubeStickerLocation)
        ensures
            sticker == self.turned(twist),
    {
        CubeStickerLocation {
            piece_location: self.piece_location,
            twist: if self.piece_location.is_corner() {
                self.twist.corner_add(twist)
            } else {
                self.twist.edge_add(twist)
            },
        }
    }

    /// The other facelet of the slot of an edge.
    pub fn inverted(&self) -> (sticker: CubeStickerLocation)
        requires
            self.piece_location.edge(),
        ensures
            sticker == self.turned(Twist::Cw120),
    {
        self.twisted(Twist::Cw120)
    }

    /// The set of faces that the slot of the facelet touches.
    pub fn get_face_mask(&self) -> (mask: FaceMask)
        ensures
            self.piece_location.named_by(mask),
    {
        self.piece_location.mask()
    }

    /// The face that the facelet lies on.
    pub fn get_face(&self) -> (face: Face)
        ensures
            face == self.face(),
    {
        let faces = self.piece_location.get_faces();
        proof {
            self.piece_location.lemma_index();
        }
        let shift = self.twist.number_of_twists() as usize % faces.len();
        faces[shift]
    }

    /// The two or three letters that name the facelet.
    pub fn to_sticker_name(&self) -> (name: String)
        ensures
            name@ == self.name(),
    {
        let faces = self.piece_location.get_faces();
        let shift = self.twist.number_of_twists() as usize;
        let mut name = String::new();
        proof {
            self.piece_location.lemma_index();
        }
        let n = faces.len();
        let mut i: usize = 0;
        while i < n
            invariant
                n == faces@.len(),
                faces@ == self.piece_location.faces(),
                2 <= n <= 3,
                shift == self.twist.steps(),
                i <= n,
                name@ == self.name().subrange(0, i as int),
            decreases n - i,
        {
            let face = faces[(i + shift) % n];
            let letter = face.to_string();
            name.append(letter.as_str());
            i = i + 1;
            assert(name@ =~= self.name().subrange(0, i as int));
        }
        assert(name@ =~= self.name());
        name
    }
}

} // verus!
