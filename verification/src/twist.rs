use crate::permutations::random_below;
use rand::Rng;
use vstd::prelude::*;
use vstd::std_specs::convert::FromSpecImpl;

verus! {

/// The orientation of a piece relative to its solved alignment.
///
/// A corner has three orientations and an edge two; both are counted in
/// steps, and an edge uses only the first two values.
#[derive(Debug, Clone, Copy, PartialEq, Eq, Hash, Structural)]
pub enum Twist {
    Solved,
    Cw120,
    Cw240,
}

/// The twist of a corner.
pub type CornerTwist = Twist;

/// The twist of an edge.
pub type EdgeTwist = Twist;

impl Twist {
    /// The solved orientation.
    pub const SOLVED: Twist = Twist::Solved;

    /// A corner turned by a third of a turn, clockwise.
    pub const CW_120: Twist = Twist::Cw120;

    /// A corner turned by two thirds of a turn, clockwise.
    pub const CW_240: Twist = Twist::Cw240;

    /// An edge turned over.
    pub const FLIPPED: Twist = Twist::Cw120;

    /// The number of steps by which the piece is turned.
    pub open spec fn steps(self) -> nat {
        match self {
            Twist::Solved => 0,
            Twist::Cw120 => 1,
            Twist::Cw240 => 2,
        }
    }

    /// The twist of `n` steps.
    pub open spec fn of_steps(n: nat) -> Twist {
        if n == 0 {
            Twist::Solved
        } else if n == 1 {
            Twist::Cw120
        } else {
            Twist::Cw240
        }
    }

    /// Whether an edge can have this twist.
    pub open spec fn is_edge_twist(self) -> bool {
        self.steps() < 2
    }

    /// The sum of two corner twists, in the group of order three.
    pub open spec fn corner_sum(self, other: Twist) -> Twist {
        Twist::of_steps((self.steps() + other.steps()) % 3)
    }

    /// The sum of two edge twists, in the group of order two.
    pub open spec fn edge_sum(self, other: Twist) -> Twist {
        Twist::of_steps((self.steps() + other.steps()) % 2)
    }

    /// The corner twist that undoes this one.
    pub open spec fn corner_inverse(self) -> Twist {
        Twist::of_steps(((3 - self.steps()) % 3) as nat)
    }

    /// The edge twist that undoes this one.
    pub open spec fn edge_inverse(self) -> Twist {
        Twist::of_steps(((2 - self.steps()) % 2) as nat)
    }

    fn from_steps(n: u8) -> (t: Twist)
        requires
            n < 3,
        ensures
            t == Twist::of_steps(n as nat),
    {
        if n == 0 {
            Twist::Solved
        } else if n == 1 {
            Twist::Cw120
        } else {
            Twist::Cw240
        }
    }

    /// The solved orientation, the identity of both groups.
    pub fn solved() -> (t: Twist)
        ensures
            t == Twist::Solved,
    {
        Twist::Solved
    }

    /// Whether this is the solved orientation.
    pub fn is_solved(&self) -> (r: bool)
        ensures
            r == (*self == Twist::Solved),
    {
        match self {
            Twist::Solved => true,
            _ => false,
        }
    }

    /// The number of steps by which the piece is turned.
    pub fn number_of_twists(&self) -> (n: u8)
        ensures
            n == self.steps(),
    {
        match self {
            Twist::Solved => 0,
            Twist::Cw120 => 1,
            Twist::Cw240 => 2,
        }
    }

    /// The sum of two corner twists: their steps added, modulo three.
    pub fn corner_add(&self, other: Twist) -> (t: Twist)
        ensures
            t == self.corner_sum(other),
    {
        Twist::from_steps((self.number_of_twists() + other.number_of_twists()) % 3)
    }

    /// The sum of two edge twists: their steps added, modulo two.
    pub fn edge_add(&self, other: Twist) -> (t: Twist)
        ensures
            t == self.edge_sum(other),
    {
        Twist::from_steps((self.number_of_twists() + other.number_of_twists()) % 2)
    }

    /// The corner twist that undoes this one.
    pub fn corner_opposite(&self) -> (t: Twist)
        ensures
            t == self.corner_inverse(),
    {
        Twist::from_steps((3 - self.number_of_twists()) % 3)
    }

    /// The edge twist that undoes this one.
    pub fn edge_opposite(&self) -> (t: Twist)
        ensures
            t == self.edge_inverse(),
    {
        Twist::from_steps((2 - self.number_of_twists()) % 2)
    }

    /// The edge twist that undoes this one. Every edge twist undoes itself.
    pub fn flipped(&self) -> (t: Twist)
        ensures
            t == self.edge_inverse(),
            self.is_edge_twist() ==> t == *self,
    {
        self.edge_opposite()
    }

    /// A corner twist drawn with `rng`: any of the three.
    pub fn random_uniform_corner<R: Rng>(rng: &mut R) -> (t: Twist) {
        Twist::from_steps(random_below(rng, 3))
    }

    /// An edge twist drawn with `rng`: solved or flipped.
    pub fn random_uniform_edge<R: Rng>(rng: &mut R) -> (t: Twist)
        ensures
            t.is_edge_twist(),
    {
        Twist::from_steps(random_below(rng, 2))
    }

    /// Corner twists form a group: the sum is associative and commutative,
    /// `Solved` is its identity, and `corner_inverse` gives the inverse.
    pub proof fn lemma_corner_group(a: Twist, b: Twist, c: Twist)
        ensures
            a.corner_sum(b).corner_sum(c) == a.corner_sum(b.corner_sum(c)),
            a.corner_sum(b) == b.corner_sum(a),
            a.corner_sum(Twist::Solved) == a,
            a.corner_sum(a.corner_inverse()) == Twist::Solved,
    {
    }

    /// Edge twists form a group on the twists that an edge can have.
    pub proof fn lemma_edge_group(a: Twist, b: Twist, c: Twist)
        requires
            a.is_edge_twist(),
            b.is_edge_twist(),
            c.is_edge_twist(),
        ensures
            a.edge_sum(b).is_edge_twist(),
            a.edge_inverse().is_edge_twist(),
            a.edge_sum(b).edge_sum(c) == a.edge_sum(b.edge_sum(c)),
            a.edge_sum(b) == b.edge_sum(a),
            a.edge_sum(Twist::Solved) == a,
            a.edge_sum(a.edge_inverse()) == Twist::Solved,
    {
    }
}

impl From<u8> for Twist {
    /// The twist of `steps` steps, for up to two steps; any other number
    /// gives the solved orientation.
    fn from(steps: u8) -> (t: Twist) {
        match steps {
            1 => Twist::Cw120,
            2 => Twist::Cw240,
            _ => Twist::Solved,
        }
    }
}

impl FromSpecImpl<u8> for Twist {
    open spec fn obeys_from_spec() -> bool {
        true
    }

    open spec fn from_spec(steps: u8) -> Twist {
        if steps < 3 {
            Twist::of_steps(steps as nat)
        } else {
            Twist::Solved
        }
    }
}

} // verus!
