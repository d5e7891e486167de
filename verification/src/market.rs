use vstd::prelude::*;

use crate::error::Error;
use crate::token::AccountId;
use crate::token::Balance;
use crate::token::Token;

verus! {

/// The record of a mint: who created the tokens and how many. The market
/// hands it back from [`Synthetics::new`] as a plain value; delivering it to
/// outside observers is the host's business.
#[derive(Clone, Copy, Debug, PartialEq, Eq, Structural)]
pub struct TokenMinted {
    pub creator: AccountId,
    pub value: Balance,
}

/// The default price source: a fixed unit price for the underlying asset. A
/// host wired to a live oracle looks the price up itself and hands the value
/// (or its absence) to [`Synthetics::new`].
pub fn get_price() -> (price: Balance)
    ensures
        price == 1,
{
    1
}

/// A single synthetic-asset market: a short ledger holding the issued
/// supply, backed by posted collateral, and a long ledger of claims against
/// it, which can never outgrow the short supply.
#[derive(Debug)]
pub struct Synthetics {
    short: Token,
    long: Token,
}

impl Synthetics {
    /// The short ledger.
    pub closed spec fn spec_short(self) -> Token {
        self.short
    }

    /// The long ledger.
    pub closed spec fn spec_long(self) -> Token {
        self.long
    }

    /// Well-formedness: both ledgers conserve their supply, and the long
    /// total never exceeds the short total.
    pub open spec fn inv(self) -> bool {
        &&& self.spec_short().inv()
        &&& self.spec_long().inv()
        &&& self.spec_long().spec_total() <= self.spec_short().spec_total()
    }

    /// The collateral a short issuance of `initial_supply` requires: its
    /// value at `price`, reduced by the haircut `margin_divisor` (integer
    /// division, truncating toward zero).
    pub open spec fn spec_required_margin(
        initial_supply: Balance,
        price: Balance,
        margin_divisor: Balance,
    ) -> int {
        (initial_supply as int * price as int) / margin_divisor as int
    }

    /// Creates a market: mints `initial_supply` short tokens to `caller` and
    /// an empty long ledger, provided `collateral` covers the required
    /// margin at the quoted `price`. `price` is the quote the host obtained
    /// from its price source, or `None` when the source could not supply
    /// one. `margin_divisor` is the protocol's collateralization parameter.
    ///
    /// Construction is all-or-nothing: it succeeds exactly when a price is
    /// available, the margin computation does not overflow, and the
    /// collateral reaches the required margin; otherwise the matching error
    /// comes back and no state exists at all. On success the minted-token
    /// record is returned alongside the market.
    pub fn new(
        initial_supply: Balance,
        collateral: Balance,
        price: Option<Balance>,
        margin_divisor: Balance,
        caller: AccountId,
    ) -> (r: Result<(Synthetics, TokenMinted), Error>)
        requires
            margin_divisor > 0,
        ensures
            r is Ok <==> {
                &&& price is Some
                &&& initial_supply as int * price->0 as int <= u128::MAX
                &&& collateral as int >= Self::spec_required_margin(
                    initial_supply,
                    price->0,
                    margin_divisor,
                )
            },
            price is None ==> r == Err::<(Synthetics, TokenMinted), Error>(
                Error::PriceUnavailable,
            ),
            price is Some && initial_supply as int * price->0 as int > u128::MAX ==> r == Err::<
                (Synthetics, TokenMinted),
                Error,
            >(Error::Overflow),
            price is Some && initial_supply as int * price->0 as int <= u128::MAX && (
            collateral as int) < Self::spec_required_margin(initial_supply, price->0, margin_divisor)
                ==> r == Err::<(Synthetics, TokenMinted), Error>(Error::InsufficientCollateral),
            r is Ok ==> {
                &&& r->Ok_0.0.inv()
                &&& r->Ok_0.0.spec_short().spec_total() == initial_supply
                &&& r->Ok_0.0.spec_short().spec_balance_of(caller) == initial_supply
                &&& forall|a: AccountId|
                    a != caller ==> r->Ok_0.0.spec_short().spec_balance_of(a) == 0
                &&& r->Ok_0.0.spec_long().spec_total() == 0
                &&& forall|a: AccountId| r->Ok_0.0.spec_long().spec_balance_of(a) == 0
                &&& r->Ok_0.1 == (TokenMinted { creator: caller, value: initial_supply })
            },
    {
        let quote = match price {
            Some(q) => q,
            None => {
                return Err(Error::PriceUnavailable);
            },
        };
        let value = match initial_supply.checked_mul(quote) {
            Some(v) => v,
            None => {
                return Err(Error::Overflow);
            },
        };
        let required_margin = value / margin_divisor;
        if collateral < required_margin {
            return Err(Error::InsufficientCollateral);
        }
        let short = Token::new(initial_supply, caller);
        let minted = TokenMinted { creator: caller, value: initial_supply };
        let long = Token::new(0, caller);
        Ok((Synthetics { short, long }, minted))
    }

    /// Returns the short pool's total supply. A pure read of the market's
    /// state: repeated calls between mutations agree.
    pub fn short_total_balance(&self) -> (r: Balance)
        ensures
            r == self.spec_short().spec_total(),
    {
        self.short.total_supply()
    }

    /// Returns the long pool's total supply. A pure read.
    pub fn long_total_balance(&self) -> (r: Balance)
        ensures
            r == self.spec_long().spec_total(),
    {
        self.long.total_supply()
    }

    /// Returns `owner`'s short balance; zero for an account that never
    /// received a mint. A pure read, total for every account.
    pub fn short_balance_of(&self, owner: AccountId) -> (r: Balance)
        ensures
            r == self.spec_short().spec_balance_of(owner),
    {
        self.short.balance_of(owner)
    }

    /// Returns `owner`'s long balance; zero for an account that never
    /// received a mint. A pure read, total for every account.
    pub fn long_balance_of(&self, owner: AccountId) -> (r: Balance)
        ensures
            r == self.spec_long().spec_balance_of(owner),
    {
        self.long.balance_of(owner)
    }
}

/// The long pool never outgrows the short pool: every market `new` returns
/// satisfies `inv`, and the reads mutate nothing, so the bound holds in
/// every reachable state.
pub proof fn lemma_long_capped_by_short(m: Synthetics)
    requires
        m.inv(),
    ensures
        m.spec_long().spec_total() <= m.spec_short().spec_total(),
{
}

} // verus!
