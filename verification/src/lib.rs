//! A 3x3x3 twisty puzzle as a permutation-and-orientation state machine.
//!
//! The crate models the twenty movable pieces of the cube, the eighteen face
//! turns acting on them, the lookup that tells which facelet of the solved
//! cube currently shows at a given place, a sampler of reachable states, and
//! the cycle decomposition used for blindfolded solving.
//!
//! Every state is made solved or drawn and is changed by whole moves only,
//! so every state has the invariants of the states that turns of the faces
//! can reach: see [`invariants::valid`].

pub mod cube;
pub mod daily;
pub mod facelet_laws;
pub mod facelets;
pub mod faces;
pub mod invariants;
pub mod laws;
pub mod location;
pub mod moves;
pub mod ncube;
pub mod notation;
pub mod permutations;
pub mod piece;
pub mod pochmann;
pub mod random_state;
pub mod scramble;
pub mod stickers;
pub mod turns;
pub mod twist;
pub mod walks;
