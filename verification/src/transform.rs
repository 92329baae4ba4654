//! The permissible-point transformation of raw leaf commitments.
//!
//! The curve-tree parameters — the permissibility predicate and its
//! blinding generator — are outside this library's scope, so they are
//! injected as a capability: a trait whose one operation maps a raw
//! commitment to its canonical permissible point and the blinding
//! randomness that witnesses it.
use crate::curve::SecpPoint;
use vstd::prelude::*;

verus! {

/// Curve-tree parameters, as the transformation consumes them: an opaque,
/// read-only capability that maps one raw commitment to one permissible
/// point and one blinding randomness value.
pub trait PermissibleParams {
    /// The blinding randomness accompanying a permissible point: an
    /// element of the complementary curve's base field.
    type Randomness;

    /// The pair that this parameter set assigns to a raw commitment.
    spec fn permissible_spec(&self, p: SecpPoint) -> (SecpPoint, Self::Randomness);

    /// Maps a raw commitment, together with the parameters' blinding
    /// generator, to its permissible point and blinding randomness.
    fn permissible_commitment(&self, p: &SecpPoint) -> (r: (SecpPoint, Self::Randomness))
        ensures
            r == self.permissible_spec(*p),
    ;
}

/// Applies the permissibility map to each commitment independently, in
/// order: the two returned sequences have the input's length, and position
/// `i` of each holds exactly the pair that the parameters assign to input
/// point `i` — no reordering, no dropping, no cross-element interaction.
pub fn create_permissible_points_and_randomnesses<M: PermissibleParams>(
    leaf_commitments: &Vec<SecpPoint>,
    sr_params: &M,
) -> (r: (Vec<SecpPoint>, Vec<M::Randomness>))
    ensures
        r.0@.len() == leaf_commitments@.len(),
        r.1@.len() == leaf_commitments@.len(),
        forall|i: int| 0 <= i < leaf_commitments@.len() ==> (r.0@[i], r.1@[i])
            == sr_params.permissible_spec(#[trigger] leaf_commitments@[i]),
{
    let mut points: Vec<SecpPoint> = Vec::new();
    let mut randomnesses: Vec<M::Randomness> = Vec::new();
    let mut i: usize = 0;
    while i < leaf_commitments.len()
        invariant
            i <= leaf_commitments@.len(),
            points@.len() == i,
            randomnesses@.len() == i,
            forall|k: int| 0 <= k < i ==> (points@[k], randomnesses@[k])
                == sr_params.permissible_spec(#[trigger] leaf_commitments@[k]),
        decreases leaf_commitments@.len() - i,
    {
        let (p, rand) = sr_params.permissible_commitment(&leaf_commitments[i]);
        points.push(p);
        randomnesses.push(rand);
        i = i + 1;
    }
    (points, randomnesses)
}

} // verus!
