//! Cost models: what a substitution and a gap cost.

use vstd::prelude::*;

verus! {

/// The cost of an alignment, or of one step of it.
pub type Cost = i32;

/// An affine cost model. A gap of length `n` costs `open + n * extend`.
#[derive(Clone, Copy, Debug, PartialEq, Eq, Structural)]
pub struct CostModel {
    /// Cost of a substitution.
    pub sub: Cost,
    /// Cost of opening a gap; zero makes the gap cost linear.
    pub open: Cost,
    /// Cost of each position of a gap.
    pub extend: Cost,
}

impl CostModel {
    /// The unit cost model counts substitutions and gap positions.
    pub open spec fn spec_unit() -> CostModel {
        CostModel { sub: 1, open: 0, extend: 1 }
    }

    pub open spec fn spec_is_unit(&self) -> bool {
        *self == Self::spec_unit()
    }

    pub open spec fn spec_is_linear(&self) -> bool {
        self.open == 0
    }

    pub open spec fn spec_is_affine(&self) -> bool {
        self.open > 0
    }

    #[verifier::when_used_as_spec(spec_unit)]
    pub fn unit() -> (cm: CostModel)
        ensures
            cm == Self::spec_unit(),
    {
        CostModel { sub: 1, open: 0, extend: 1 }
    }

    /// A model without a cost for opening a gap.
    pub fn linear(sub: Cost, indel: Cost) -> (cm: CostModel)
        ensures
            cm == (CostModel { sub, open: 0, extend: indel }),
    {
        CostModel { sub, open: 0, extend: indel }
    }

    pub fn affine(sub: Cost, open: Cost, extend: Cost) -> (cm: CostModel)
        ensures
            cm == (CostModel { sub, open, extend }),
    {
        CostModel { sub, open, extend }
    }

    #[verifier::when_used_as_spec(spec_is_unit)]
    pub fn is_unit(&self) -> (b: bool)
        ensures
            b == self.spec_is_unit(),
    {
        self.sub == 1 && self.open == 0 && self.extend == 1
    }

    #[verifier::when_used_as_spec(spec_is_linear)]
    pub fn is_linear(&self) -> (b: bool)
        ensures
            b == self.spec_is_linear(),
    {
        self.open == 0
    }

    #[verifier::when_used_as_spec(spec_is_affine)]
    pub fn is_affine(&self) -> (b: bool)
        ensures
            b == self.spec_is_affine(),
    {
        self.open > 0
    }
}

} // verus!
