use crate::faces::{Face, FaceMask};
use vstd::prelude::*;

verus! {

/// One of the twenty slots of the cube frame that hold a movable piece.
///
/// A slot is named by the faces it touches, in the order in which its
/// stickers are named: eight corner slots first, then twelve edge slots.
#[derive(Debug, Clone, Copy, PartialEq, Eq, Hash, Structural)]
pub enum CubePieceLocation {
    URF,
    UFL,
    ULB,
    UBR,
    DFR,
    DLF,
    DBL,
    DRB,
    UR,
    UF,
    UL,
    UB,
    DR,
    DF,
    DL,
    DB,
    FR,
    FL,
    BL,
    BR,
}

/// A slot, where the context tells whether a corner or an edge is meant.
pub type PieceLocation = CubePieceLocation;

/// The identity of a corner piece: the slot it fills on the solved cube.
pub type Corner = CubePieceLocation;

/// The identity of an edge piece: the slot it fills on the solved cube.
pub type Edge = CubePieceLocation;

/// The number of corner slots.
pub const CORNER_COUNT: usize = 8;

/// The number of edge slots.
pub const EDGE_COUNT: usize = 12;

/// The number of slots.
pub const LOCATION_COUNT: usize = 20;

impl CubePieceLocation {
    /// The slot `URF`, named in the order up, front, right.
    pub const UFR: CubePieceLocation = CubePieceLocation::URF;

    /// The slot `ULB`, named in the order up, back, left.
    pub const UBL: CubePieceLocation = CubePieceLocation::ULB;

    /// The slot `DLF`, named in the order down, front, left.
    pub const DFL: CubePieceLocation = CubePieceLocation::DLF;

    /// The slot `DRB`, named in the order down, back, right.
    pub const DBR: CubePieceLocation = CubePieceLocation::DRB;

    /// The slot `DBL`, named in the order down, left, back.
    pub const DLB: CubePieceLocation = CubePieceLocation::DBL;

    /// The place of the slot among the twenty: corners come first.
    #[verifier::opaque]
    pub open spec fn index(self) -> int {
        match self {
            CubePieceLocation::URF => 0,
            CubePieceLocation::UFL => 1,
            CubePieceLocation::ULB => 2,
            CubePieceLocation::UBR => 3,
            CubePieceLocation::DFR => 4,
            CubePieceLocation::DLF => 5,
            CubePieceLocation::DBL => 6,
            CubePieceLocation::DRB => 7,
            CubePieceLocation::UR => 8,
            CubePieceLocation::UF => 9,
            CubePieceLocation::UL => 10,
            CubePieceLocation::UB => 11,
            CubePieceLocation::DR => 12,
            CubePieceLocation::DF => 13,
            CubePieceLocation::DL => 14,
            CubePieceLocation::DB => 15,
            CubePieceLocation::FR => 16,
            CubePieceLocation::FL => 17,
            CubePieceLocation::BL => 18,
            CubePieceLocation::BR => 19,
        }
    }

    /// The slot at place `i`.
    #[verifier::opaque]
    pub open spec fn at(i: int) -> CubePieceLocation {
        if i == 0 { CubePieceLocation::URF } else if i == 1 { CubePieceLocation::UFL } else if i == 2 { CubePieceLocation::ULB } else if i == 3 { CubePieceLocation::UBR } else if i == 4 { CubePieceLocation::DFR } else if i == 5 { CubePieceLocation::DLF } else if i == 6 { CubePieceLocation::DBL } else if i == 7 { CubePieceLocation::DRB } else if i == 8 { CubePieceLocation::UR } else if i == 9 { CubePieceLocation::UF } else if i == 10 { CubePieceLocation::UL } else if i == 11 { CubePieceLocation::UB } else if i == 12 { CubePieceLocation::DR } else if i == 13 { CubePieceLocation::DF } else if i == 14 { CubePieceLocation::DL } else if i == 15 { CubePieceLocation::DB } else if i == 16 { CubePieceLocation::FR } else if i == 17 { CubePieceLocation::FL } else if i == 18 { CubePieceLocation::BL } else { CubePieceLocation::BR }
    }

    /// Whether the slot holds a corner.
    pub open spec fn corner(self) -> bool {
        self.index() < 8
    }

    /// Whether the slot holds an edge.
    pub open spec fn edge(self) -> bool {
        self.index() >= 8
    }

    /// The faces that the slot touches, in sticker-naming order.
    pub open spec fn faces(self) -> Seq<Face> {
        match self {
            CubePieceLocation::URF => seq![Face::U, Face::R, Face::F],
            CubePieceLocation::UFL => seq![Face::U, Face::F, Face::L],
            CubePieceLocation::ULB => seq![Face::U, Face::L, Face::B],
            CubePieceLocation::UBR => seq![Face::U, Face::B, Face::R],
            CubePieceLocation::DFR => seq![Face::D, Face::F, Face::R],
            CubePieceLocation::DLF => seq![Face::D, Face::L, Face::F],
            CubePieceLocation::DBL => seq![Face::D, Face::B, Face::L],
            CubePieceLocation::DRB => seq![Face::D, Face::R, Face::B],
            CubePieceLocation::UR => seq![Face::U, Face::R],
            CubePieceLocation::UF => seq![Face::U, Face::F],
            CubePieceLocation::UL => seq![Face::U, Face::L],
            CubePieceLocation::UB => seq![Face::U, Face::B],
            CubePieceLocation::DR => seq![Face::D, Face::R],
            CubePieceLocation::DF => seq![Face::D, Face::F],
            CubePieceLocation::DL => seq![Face::D, Face::L],
            CubePieceLocation::DB => seq![Face::D, Face::B],
            CubePieceLocation::FR => seq![Face::F, Face::R],
            CubePieceLocation::FL => seq![Face::F, Face::L],
            CubePieceLocation::BL => seq![Face::B, Face::L],
            CubePieceLocation::BR => seq![Face::B, Face::R],
        }
    }

    /// The number of stickers of a piece in this slot: three on a corner,
    /// two on an edge.
    pub open spec fn sticker_count(self) -> nat {
        if self.corner() {
            3
        } else {
            2
        }
    }

    /// Places and slots correspond one to one.
    pub proof fn lemma_index(self)
        ensures
            0 <= self.index() < 20,
            CubePieceLocation::at(self.index()) == self,
            self.faces().len() == self.sticker_count(),
            self.corner() != self.edge(),
    {
        reveal(CubePieceLocation::index);
        reveal(CubePieceLocation::at);
    }

    /// Every place below twenty holds a slot.
    pub proof fn lemma_at(i: int)
        requires
            0 <= i < 20,
        ensures
            CubePieceLocation::at(i).index() == i,
    {
        reveal(CubePieceLocation::index);
        reveal(CubePieceLocation::at);
    }

    /// The place of the slot among the twenty.
    pub fn to_index(&self) -> (i: usize)
        ensures
            i == self.index(),
            i < 20,
    {
        proof {
            reveal(CubePieceLocation::index);
        }
        match self {
            CubePieceLocation::URF => 0,
            CubePieceLocation::UFL => 1,
            CubePieceLocation::ULB => 2,
            CubePieceLocation::UBR => 3,
            CubePieceLocation::DFR => 4,
            CubePieceLocation::DLF => 5,
            CubePieceLocation::DBL => 6,
            CubePieceLocation::DRB => 7,
            CubePieceLocation::UR => 8,
            CubePieceLocation::UF => 9,
            CubePieceLocation::UL => 10,
            CubePieceLocation::UB => 11,
            CubePieceLocation::DR => 12,
            CubePieceLocation::DF => 13,
            CubePieceLocation::DL => 14,
            CubePieceLocation::DB => 15,
            CubePieceLocation::FR => 16,
            CubePieceLocation::FL => 17,
            CubePieceLocation::BL => 18,
            CubePieceLocation::BR => 19,
        }
    }

    /// The slot at place `i`.
    pub fn from_index(i: usize) -> (location: CubePieceLocation)
        requires
            i < 20,
        ensures
            location == CubePieceLocation::at(i as int),
            location.index() == i,
    {
        proof {
            reveal(CubePieceLocation::index);
            reveal(CubePieceLocation::at);
        }
        match i {
            0 => CubePieceLocation::URF,
            1 => CubePieceLocation::UFL,
            2 => CubePieceLocation::ULB,
            3 => CubePieceLocation::UBR,
            4 => CubePieceLocation::DFR,
            5 => CubePieceLocation::DLF,
            6 => CubePieceLocation::DBL,
            7 => CubePieceLocation::DRB,
            8 => CubePieceLocation::UR,
            9 => CubePieceLocation::UF,
            10 => CubePieceLocation::UL,
            11 => CubePieceLocation::UB,
            12 => CubePieceLocation::DR,
            13 => CubePieceLocation::DF,
            14 => CubePieceLocation::DL,
            15 => CubePieceLocation::DB,
            16 => CubePieceLocation::FR,
            17 => CubePieceLocation::FL,
            18 => CubePieceLocation::BL,
            _ => CubePieceLocation::BR,
        }
    }

    /// Whether `mask` holds exactly the faces that the slot touches.
    pub open spec fn named_by(self, mask: FaceMask) -> bool {
        forall|f: Face| mask.has(f) == self.faces().contains(f)
    }

    /// The slot that touches exactly the faces of `mask`. There is none
    /// unless the faces are two or three that meet: two opposite faces name
    /// no slot.
    pub fn from_mask(mask: FaceMask) -> (location: Option<CubePieceLocation>)
        ensures
            match location {
                Some(location) => location.named_by(mask),
                None => forall|other: CubePieceLocation| !other.named_by(mask),
            },
    {
        proof {
            use_type_invariant(mask);
        }
        let mut i: usize = 0;
        while i < 20
            invariant
                i <= 20,
                mask.wf(),
                forall|k: int| 0 <= k < i ==> !CubePieceLocation::at(k).named_by(mask),
            decreases 20 - i,
        {
            let location = CubePieceLocation::from_index(i);
            let own = location.mask();
            if own == mask {
                return Some(location);
            }
            proof {
                use_type_invariant(own);
                if location.named_by(mask) {
                    mask.lemma_extensional(own);
                }
            }
            i = i + 1;
        }
        proof {
            assert forall|other: CubePieceLocation| !other.named_by(mask) by {
                other.lemma_index();
            }
        }
        None
    }

    /// The set of faces that the slot touches.
    pub fn mask(self) -> (m: FaceMask)
        ensures
            self.named_by(m),
            m.face_count() == self.sticker_count(),
    {
        let m = match self {
            CubePieceLocation::URF => FaceMask::from_face(Face::U).or(FaceMask::from_face(Face::R)).or(FaceMask::from_face(Face::F)),
            CubePieceLocation::UFL => FaceMask::from_face(Face::U).or(FaceMask::from_face(Face::F)).or(FaceMask::from_face(Face::L)),
            CubePieceLocation::ULB => FaceMask::from_face(Face::U).or(FaceMask::from_face(Face::L)).or(FaceMask::from_face(Face::B)),
            CubePieceLocation::UBR => FaceMask::from_face(Face::U).or(FaceMask::from_face(Face::B)).or(FaceMask::from_face(Face::R)),
            CubePieceLocation::DFR => FaceMask::from_face(Face::D).or(FaceMask::from_face(Face::F)).or(FaceMask::from_face(Face::R)),
            CubePieceLocation::DLF => FaceMask::from_face(Face::D).or(FaceMask::from_face(Face::L)).or(FaceMask::from_face(Face::F)),
            CubePieceLocation::DBL => FaceMask::from_face(Face::D).or(FaceMask::from_face(Face::B)).or(FaceMask::from_face(Face::L)),
            CubePieceLocation::DRB => FaceMask::from_face(Face::D).or(FaceMask::from_face(Face::R)).or(FaceMask::from_face(Face::B)),
            CubePieceLocation::UR => FaceMask::from_face(Face::U).or(FaceMask::from_face(Face::R)),
            CubePieceLocation::UF => FaceMask::from_face(Face::U).or(FaceMask::from_face(Face::F)),
            CubePieceLocation::UL => FaceMask::from_face(Face::U).or(FaceMask::from_face(Face::L)),
            CubePieceLocation::UB => FaceMask::from_face(Face::U).or(FaceMask::from_face(Face::B)),
            CubePieceLocation::DR => FaceMask::from_face(Face::D).or(FaceMask::from_face(Face::R)),
            CubePieceLocation::DF => FaceMask::from_face(Face::D).or(FaceMask::from_face(Face::F)),
            CubePieceLocation::DL => FaceMask::from_face(Face::D).or(FaceMask::from_face(Face::L)),
            CubePieceLocation::DB => FaceMask::from_face(Face::D).or(FaceMask::from_face(Face::B)),
            CubePieceLocation::FR => FaceMask::from_face(Face::F).or(FaceMask::from_face(Face::R)),
            CubePieceLocation::FL => FaceMask::from_face(Face::F).or(FaceMask::from_face(Face::L)),
            CubePieceLocation::BL => FaceMask::from_face(Face::B).or(FaceMask::from_face(Face::L)),
            CubePieceLocation::BR => FaceMask::from_face(Face::B).or(FaceMask::from_face(Face::R)),
        };
        proof {
            reveal(CubePieceLocation::index);
            let s = self.faces();
            assert forall|f: Face| m.has(f) == s.contains(f) by {
                if m.has(f) {
                    assert(s[0] == f || s[1] == f || (s.len() == 3 && s[2] == f));
                }
                if s.contains(f) {
                    let i = choose|i: int| 0 <= i < s.len() && s[i] == f;
                    assert(i == 0 || i == 1 || i == 2);
                }
            }
            assert(s.contains(s[0]) && s.contains(s[1]));
            assert(s.len() == 3 ==> s.contains(s[2]));
        }
        m
    }

    /// Whether the slot holds a corner.
    pub fn is_corner(&self) -> (r: bool)
        ensures
            r == self.corner(),
    {
        self.to_index() < 8
    }

    /// Whether the slot holds an edge.
    pub fn is_edge(&self) -> (r: bool)
        ensures
            r == self.edge(),
    {
        self.to_index() >= 8
    }

    /// The faces that the slot touches, in sticker-naming order.
    pub fn get_faces(&self) -> (faces: Vec<Face>)
        ensures
            faces@ == self.faces(),
    {
        let faces = match self {
            CubePieceLocation::URF => vec![Face::U, Face::R, Face::F],
            CubePieceLocation::UFL => vec![Face::U, Face::F, Face::L],
            CubePieceLocation::ULB => vec![Face::U, Face::L, Face::B],
            CubePieceLocation::UBR => vec![Face::U, Face::B, Face::R],
            CubePieceLocation::DFR => vec![Face::D, Face::F, Face::R],
            CubePieceLocation::DLF => vec![Face::D, Face::L, Face::F],
            CubePieceLocation::DBL => vec![Face::D, Face::B, Face::L],
            CubePieceLocation::DRB => vec![Face::D, Face::R, Face::B],
            CubePieceLocation::UR => vec![Face::U, Face::R],
            CubePieceLocation::UF => vec![Face::U, Face::F],
            CubePieceLocation::UL => vec![Face::U, Face::L],
            CubePieceLocation::UB => vec![Face::U, Face::B],
            CubePieceLocation::DR => vec![Face::D, Face::R],
            CubePieceLocation::DF => vec![Face::D, Face::F],
            CubePieceLocation::DL => vec![Face::D, Face::L],
            CubePieceLocation::DB => vec![Face::D, Face::B],
            CubePieceLocation::FR => vec![Face::F, Face::R],
            CubePieceLocation::FL => vec![Face::F, Face::L],
            CubePieceLocation::BL => vec![Face::B, Face::L],
            CubePieceLocation::BR => vec![Face::B, Face::R],
        };
        assert(faces@ =~= self.faces());
        faces
    }
}

} // verus!
