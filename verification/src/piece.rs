use crate::location::CubePieceLocation;
use crate::twist::Twist;
use vstd::prelude::*;

verus! {

/// A corner or edge block of the cube with its orientation.
///
/// The block is known by the slot that it fills on the solved cube, which
/// never changes; the twist tells how it is turned where it sits now.
#[derive(Debug, Clone, Copy, PartialEq, Eq, Hash, Structural)]
pub struct CubePiece {
    pub piece: CubePieceLocation,
    pub twist: Twist,
}

/// A corner with its orientation.
pub type CornerState = CubePiece;

/// An edge with its orientation.
pub type EdgeState = CubePiece;

impl CubePiece {
    /// An edge has one of the two edge twists; a corner may have any twist.
    pub open spec fn wf(self) -> bool {
        self.piece.edge() ==> self.twist.is_edge_twist()
    }

    /// The piece that belongs in `location`, at its solved orientation.
    pub open spec fn home(location: CubePieceLocation) -> CubePiece {
        CubePiece { piece: location, twist: Twist::Solved }
    }

    /// The piece turned further by `twist`, in the group of its kind.
    #[verifier::opaque]
    pub open spec fn turned(self, twist: Twist) -> CubePiece {
        CubePiece {
            piece: self.piece,
            twist: if self.piece.corner() {
                self.twist.corner_sum(twist)
            } else {
                self.twist.edge_sum(twist)
            },
        }
    }

    /// Turning keeps a piece well formed, whatever the twist.
    pub proof fn lemma_turned_wf(self, twist: Twist)
        ensures
            self.turned(twist).wf(),
            self.turned(twist).piece == self.piece,
    {
        reveal(CubePiece::turned);
    }

    /// The piece that belongs in `location`, untwisted.
    pub fn from_location(location: CubePieceLocation) -> (piece: CubePiece)
        ensures
            piece == CubePiece::home(location),
    {
        if location.is_corner() {
            Self::corner(location)
        } else {
            Self::edge(location)
        }
    }

    /// Whether the piece is the one that belongs in `location` and is not
    /// twisted.
    pub fn is_solved(&self, location: &CubePieceLocation) -> (r: bool)
        ensures
            r == (*self == CubePiece::home(*location)),
    {
        proof {
            self.piece.lemma_index();
            location.lemma_index();
        }
        self.piece.to_index() == location.to_index() && self.twist.is_solved()
    }

    /// The slot that the piece fills on the solved cube.
    pub fn get_original_location(&self) -> (location: CubePieceLocation)
        ensures
            location == self.piece,
    {
        self.piece
    }

    /// How the piece is twisted where it sits.
    pub fn get_twist(&self) -> (twist: Twist)
        ensures
            twist == self.twist,
    {
        self.twist
    }

    /// Whether the piece is a corner.
    pub fn is_corner(&self) -> (r: bool)
        ensures
            r == self.piece.corner(),
    {
        self.piece.is_corner()
    }

    /// Whether the piece is an edge.
    pub fn is_edge(&self) -> (r: bool)
        ensures
            r == self.piece.edge(),
    {
        self.piece.is_edge()
    }

    /// The piece turned further by `twist`: a corner in the group of order
    /// three, an edge in the group of order two.
    pub fn twisted(&self, twist: Twist) -> (piece: CubePiece)
        ensures
            piece == self.turned(twist),
    {
        proof {
            reveal(CubePiece::turned);
        }
        CubePiece {
            piece: self.piece,
            twist: if self.is_corner() {
                self.twist.corner_add(twist)
            } else {
                self.twist.edge_add(twist)
            },
        }
    }

    /// The untwisted corner of the corner slot `location`.
    pub fn corner(location: CubePieceLocation) -> (piece: CubePiece)
        requires
            location.corner(),
        ensures
            piece == CubePiece::home(location),
    {
        CubePiece { piece: location, twist: Twist::Solved }
    }

    /// The untwisted edge of the edge slot `location`.
    pub fn edge(location: CubePieceLocation) -> (piece: CubePiece)
        requires
            location.edge(),
        ensures
            piece == CubePiece::home(location),
    {
        CubePiece { piece: location, twist: Twist::Solved }
    }
}

} // verus!
