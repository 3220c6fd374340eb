use vstd::prelude::*;

verus! {

/// Why a transition was rejected. A rejected transition changes nothing.
#[derive(Clone, Copy, Debug, PartialEq, Eq, Structural)]
pub enum Error {
    /// The caller is not the admin, on an admin-only operation.
    NotAuthorized,
    /// A balance or a debt is smaller than the amount requested.
    InsufficientBalance,
    /// A protocol-wide liquidity shortfall; no transition raises it.
    InsufficientLiquidity,
    /// Collateral does not cover a borrow, a removal or a liquidation.
    InsufficientCollateral,
    /// The pause gate is closed.
    ContractPaused,
    /// The result of the transition does not fit in a `Balance`.
    Overflow,
}

} // verus!
