use vstd::prelude::*;

verus! {

/// One of the six faces of the cube.
#[derive(Debug, PartialEq, Eq, Clone, Copy, Hash, Structural)]
pub enum Face {
    U,
    D,
    F,
    B,
    L,
    R,
}

impl Face {
    /// The letter that names the face.
    pub open spec fn letter(self) -> char {
        match self {
            Face::U => 'U',
            Face::D => 'D',
            Face::F => 'F',
            Face::B => 'B',
            Face::L => 'L',
            Face::R => 'R',
        }
    }

    /// The bit that stands for the face in a [`FaceMask`].
    pub open spec fn bit(self) -> u8 {
        match self {
            Face::U => 1u8,
            Face::D => 2u8,
            Face::F => 4u8,
            Face::B => 8u8,
            Face::L => 16u8,
            Face::R => 32u8,
        }
    }

    /// The letter that names the face.
    pub fn to_char(&self) -> (c: char)
        ensures
            c == self.letter(),
    {
        match self {
            Face::U => 'U',
            Face::D => 'D',
            Face::F => 'F',
            Face::B => 'B',
            Face::L => 'L',
            Face::R => 'R',
        }
    }

    /// The one-letter name of the face.
    pub fn to_string(&self) -> (s: String)
        ensures
            s@ == seq![self.letter()],
    {
        let mut s = String::new();
        let name: &str = match self {
            Face::U => "U",
            Face::D => "D",
            Face::F => "F",
            Face::B => "B",
            Face::L => "L",
            Face::R => "R",
        };
        proof {
            reveal_strlit("U");
            reveal_strlit("D");
            reveal_strlit("F");
            reveal_strlit("B");
            reveal_strlit("L");
            reveal_strlit("R");
            assert(name@ =~= seq![self.letter()]);
        }
        s.append(name);
        assert(s@ =~= seq![self.letter()]);
        s
    }
}

/// A set of faces, held as one bit per face.
#[derive(Debug, PartialEq, Eq, Clone, Copy, Hash, Structural)]
pub struct FaceMask {
    bits: u8,
}

impl FaceMask {
    /// Whether the set holds `face`.
    pub closed spec fn has(self, face: Face) -> bool {
        self.bits & face.bit() != 0
    }

    /// No bit outside the six face bits is set. Every mask is so.
    #[verifier::type_invariant]
    pub closed spec fn wf(self) -> bool {
        self.bits & 0xC0u8 == 0
    }

    /// The number of faces in the set.
    pub open spec fn face_count(self) -> nat {
        (if self.has(Face::U) { 1nat } else { 0 }) + (if self.has(Face::D) { 1nat } else { 0 })
            + (if self.has(Face::F) { 1nat } else { 0 }) + (if self.has(Face::B) { 1nat } else { 0 })
            + (if self.has(Face::L) { 1nat } else { 0 }) + (if self.has(Face::R) { 1nat } else { 0 })
    }

    /// The sets are equal exactly when they hold the same faces.
    pub proof fn lemma_extensional(self, other: FaceMask)
        requires
            self.wf(),
            other.wf(),
            forall|f: Face| self.has(f) == other.has(f),
        ensures
            self == other,
    {
        let a = self.bits;
        let b = other.bits;
        assert(self.has(Face::U) == other.has(Face::U));
        assert(self.has(Face::D) == other.has(Face::D));
        assert(self.has(Face::F) == other.has(Face::F));
        assert(self.has(Face::B) == other.has(Face::B));
        assert(self.has(Face::L) == other.has(Face::L));
        assert(self.has(Face::R) == other.has(Face::R));
        assert(a == b) by (bit_vector)
            requires
                a & 0xC0u8 == 0,
                b & 0xC0u8 == 0,
                (a & 1u8 != 0) == (b & 1u8 != 0),
                (a & 2u8 != 0) == (b & 2u8 != 0),
                (a & 4u8 != 0) == (b & 4u8 != 0),
                (a & 8u8 != 0) == (b & 8u8 != 0),
                (a & 16u8 != 0) == (b & 16u8 != 0),
                (a & 32u8 != 0) == (b & 32u8 != 0),
        ;
    }

    /// The empty set.
    pub fn none() -> (m: FaceMask)
        ensures
            m.wf(),
            forall|f: Face| !m.has(f),
            m.face_count() == 0,
    {
        assert(forall|x: u8| 0u8 & x == 0) by (bit_vector);
        FaceMask { bits: 0 }
    }

    /// The set that holds `face` alone.
    pub fn from_face(face: Face) -> (m: FaceMask)
        ensures
            m.wf(),
            forall|f: Face| m.has(f) == (f == face),
            m.face_count() == 1,
    {
        let bits: u8 = match face {
            Face::U => 1,
            Face::D => 2,
            Face::F => 4,
            Face::B => 8,
            Face::L => 16,
            Face::R => 32,
        };
        assert(bits & 0xC0u8 == 0 && (bits & 1u8 != 0) == (bits == 1) && (bits & 2u8 != 0) == (bits
            == 2) && (bits & 4u8 != 0) == (bits == 4) && (bits & 8u8 != 0) == (bits == 8) && (bits
            & 16u8 != 0) == (bits == 16) && (bits & 32u8 != 0) == (bits == 32)) by (bit_vector)
            requires
                bits == 1 || bits == 2 || bits == 4 || bits == 8 || bits == 16 || bits == 32,
        ;
        let m = FaceMask { bits };
        assert forall|f: Face| m.has(f) == (f == face) by {
            match f {
                Face::U => {},
                Face::D => {},
                Face::F => {},
                Face::B => {},
                Face::L => {},
                Face::R => {},
            }
        }
        m
    }

    /// The union of the two sets.
    pub fn or(self, other: FaceMask) -> (m: FaceMask)
        ensures
            m.wf(),
            forall|f: Face| m.has(f) == (self.has(f) || other.has(f)),
    {
        let a = self.bits;
        let b = other.bits;
        assert(((a | b) & 0x3Fu8) & 0xC0u8 == 0) by (bit_vector);
        let m = FaceMask { bits: (a | b) & 0x3F };
        assert(((a | b) & 0x3Fu8) & 1u8 != 0 <==> (a & 1u8 != 0 || b & 1u8 != 0)) by (bit_vector);
        assert(((a | b) & 0x3Fu8) & 2u8 != 0 <==> (a & 2u8 != 0 || b & 2u8 != 0)) by (bit_vector);
        assert(((a | b) & 0x3Fu8) & 4u8 != 0 <==> (a & 4u8 != 0 || b & 4u8 != 0)) by (bit_vector);
        assert(((a | b) & 0x3Fu8) & 8u8 != 0 <==> (a & 8u8 != 0 || b & 8u8 != 0)) by (bit_vector);
        assert(((a | b) & 0x3Fu8) & 16u8 != 0 <==> (a & 16u8 != 0 || b & 16u8 != 0))
            by (bit_vector);
        assert(((a | b) & 0x3Fu8) & 32u8 != 0 <==> (a & 32u8 != 0 || b & 32u8 != 0))
            by (bit_vector);
        assert forall|f: Face| m.has(f) == (self.has(f) || other.has(f)) by {
            match f {
                Face::U => {},
                Face::D => {},
                Face::F => {},
                Face::B => {},
                Face::L => {},
                Face::R => {},
            }
        }
        m
    }

    /// Whether every face of `other` is in this set.
    pub fn contains(self, other: FaceMask) -> (r: bool)
        ensures
            r == (forall|f: Face| other.has(f) ==> self.has(f)),
    {
        let a = self.bits;
        let b = other.bits & 0x3F;
        let r = a & b == b;
        proof {
            let c = other.bits;
            if r {
                assert((c & 1u8 != 0 ==> a & 1u8 != 0) && (c & 2u8 != 0 ==> a & 2u8 != 0) && (c
                    & 4u8 != 0 ==> a & 4u8 != 0) && (c & 8u8 != 0 ==> a & 8u8 != 0) && (c & 16u8
                    != 0 ==> a & 16u8 != 0) && (c & 32u8 != 0 ==> a & 32u8 != 0)) by (bit_vector)
                    requires
                        a & (c & 0x3Fu8) == c & 0x3Fu8,
                ;
                assert forall|f: Face| other.has(f) implies self.has(f) by {
                    match f {
                        Face::U => {},
                        Face::D => {},
                        Face::F => {},
                        Face::B => {},
                        Face::L => {},
                        Face::R => {},
                    }
                }
            } else {
                assert((c & 1u8 != 0 && a & 1u8 == 0) || (c & 2u8 != 0 && a & 2u8 == 0) || (c & 4u8
                    != 0 && a & 4u8 == 0) || (c & 8u8 != 0 && a & 8u8 == 0) || (c & 16u8 != 0 && a
                    & 16u8 == 0) || (c & 32u8 != 0 && a & 32u8 == 0)) by (bit_vector)
                    requires
                        a & (c & 0x3Fu8) != c & 0x3Fu8,
                ;
                assert(!(other.has(Face::U) ==> self.has(Face::U)) || !(other.has(Face::D)
                    ==> self.has(Face::D)) || !(other.has(Face::F) ==> self.has(Face::F)) || !(
                other.has(Face::B) ==> self.has(Face::B)) || !(other.has(Face::L) ==> self.has(
                    Face::L,
                )) || !(other.has(Face::R) ==> self.has(Face::R)));
            }
        }
        r
    }

    /// Whether `face` is in the set.
    pub fn has_face(self, face: Face) -> (r: bool)
        ensures
            r == self.has(face),
    {
        let bit: u8 = match face {
            Face::U => 1,
            Face::D => 2,
            Face::F => 4,
            Face::B => 8,
            Face::L => 16,
            Face::R => 32,
        };
        self.bits & bit != 0
    }

    /// The bits of the set: bit 0 for U, then D, F, B, L and R, and no other
    /// bit.
    pub fn bits(self) -> (b: u8)
        ensures
            forall|f: Face| self.has(f) == (b & f.bit() != 0),
            b < 64,
            self.wf(),
    {
        proof {
            use_type_invariant(self);
            let bits = self.bits;
            assert(bits < 64) by (bit_vector)
                requires
                    bits & 0xC0u8 == 0,
            ;
        }
        self.bits
    }

    fn count(self) -> (n: u8)
        ensures
            n == self.face_count(),
    {
        let mut n: u8 = 0;
        if self.has_face(Face::U) {
            n = n + 1;
        }
        if self.has_face(Face::D) {
            n = n + 1;
        }
        if self.has_face(Face::F) {
            n = n + 1;
        }
        if self.has_face(Face::B) {
            n = n + 1;
        }
        if self.has_face(Face::L) {
            n = n + 1;
        }
        if self.has_face(Face::R) {
            n = n + 1;
        }
        n
    }

    /// Whether the set names a corner slot: it holds three faces.
    pub fn is_corner(self) -> (r: bool)
        ensures
            r == (self.face_count() == 3),
    {
        self.count() == 3
    }

    /// Whether the set names an edge slot: it holds two faces.
    pub fn is_edge(self) -> (r: bool)
        ensures
            r == (self.face_count() == 2),
    {
        self.count() == 2
    }

    /// What [`FaceMask::faces`] returns: at most one face of each axis, U or D
    /// first, then B or F, then R or L; U, B and R take precedence.
    pub open spec fn faces_spec(self) -> Seq<Face> {
        let first = if self.has(Face::U) {
            seq![Face::U]
        } else if self.has(Face::D) {
            seq![Face::D]
        } else {
            Seq::<Face>::empty()
        };
        let second = if self.has(Face::B) {
            seq![Face::B]
        } else if self.has(Face::F) {
            seq![Face::F]
        } else {
            Seq::<Face>::empty()
        };
        let third = if self.has(Face::R) {
            seq![Face::R]
        } else if self.has(Face::L) {
            seq![Face::L]
        } else {
            Seq::<Face>::empty()
        };
        first + second + third
    }

    /// The faces of the set, one per axis at most, in the order of
    /// [`FaceMask::faces_spec`].
    pub fn faces(&self) -> (faces: Vec<Face>)
        ensures
            faces@ == self.faces_spec(),
    {
        let mut faces: Vec<Face> = Vec::new();
        if self.has_face(Face::U) {
            faces.push(Face::U);
        } else if self.has_face(Face::D) {
            faces.push(Face::D);
        }
        let ghost first = faces@;
        if self.has_face(Face::B) {
            faces.push(Face::B);
        } else if self.has_face(Face::F) {
            faces.push(Face::F);
        }
        let ghost second = faces@;
        if self.has_face(Face::R) {
            faces.push(Face::R);
        } else if self.has_face(Face::L) {
            faces.push(Face::L);
        }
        assert(faces@ =~= self.faces_spec());
        faces
    }
}

} // verus!
