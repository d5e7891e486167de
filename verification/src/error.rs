use vstd::prelude::*;

verus! {

/// Why a market operation was refused. Every failure is reported to the
/// caller before any state is touched: a refused operation leaves no
/// residual state behind.
#[derive(Clone, Copy, Debug, PartialEq, Eq, Structural)]
pub enum Error {
    /// The attached collateral is below the required margin.
    InsufficientCollateral,
    /// An arithmetic step (margin computation or balance accumulation)
    /// would exceed the representable range.
    Overflow,
    /// The external price source could not supply a value.
    PriceUnavailable,
}

} // verus!
