use vstd::prelude::*;

verus! {

/// The errors that the pool's instructions report.
#[derive(Debug, Clone, Copy, PartialEq, Eq, Structural)]
pub enum ErrorCode {
    CustomError,
    /// A deposit (or a swap input) of zero tokens.
    ZeroDeposit,
    /// The result falls short of the caller's floor.
    SlippageExceeded,
    /// The result rounds down to zero tokens.
    LPDust,
    /// A cached reserve would leave the range of `u64`.
    Overflow,
    /// A fee above 10 000 basis points.
    HighBPS,
    /// A withdrawal of zero LP tokens.
    ZeroWithdrawal,
}

} // verus!
