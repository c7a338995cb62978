//! Shape checks of the binary logistic regression model that scores a
//! fakeprint.

use vstd::prelude::*;

verus! {

/// A vector whose length differs from the model's feature count.
#[derive(Debug, Clone, Copy, PartialEq, Eq, Structural)]
pub struct LengthMismatch {
    /// Number of features the model was trained on.
    pub expected: u64,
    /// Length that was found instead.
    pub actual: usize,
}

/// Check that a vector of `actual` entries fits a model of `expected`
/// features; used both for the model's coefficients when it is loaded and for
/// a fakeprint before it is scored.
pub fn check_feature_count(expected: u64, actual: usize) -> (res: Result<(), LengthMismatch>)
    ensures
        res is Ok <==> actual == expected,
        res is Err ==> res->Err_0 == (LengthMismatch { expected, actual }),
{
    if actual as u64 != expected {
        return Err(LengthMismatch { expected, actual });
    }
    Ok(())
}

} // verus!
