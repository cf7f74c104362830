//! The pool: its ledger of reserves and privileged accounts, the swap gates,
//! and the owner's liquidity operations.
use vstd::prelude::*;
use crate::error::PoolError;
use crate::pricing::{
    compute_output, lemma_output_keeps_product, lemma_price_falls_as_a_grows, output_for, price_of,
    quote_price,
};
use vstd::arithmetic::mul::lemma_mul_is_commutative;

verus! {

/// Identifier of an account: the 32 bytes of its address.
#[derive(Debug, Clone, Copy, Eq)]
pub struct AccountId {
    pub bytes: [u8; 32],
}

impl PartialEq for AccountId {
    fn eq(&self, other: &AccountId) -> (r: bool)
        ensures
            r == (*self == *other),
    {
        let mut i: usize = 0;
        while i < 32
            invariant
                0 <= i <= 32,
                forall|k: int| 0 <= k < i ==> self.bytes[k] == other.bytes[k],
            decreases 32 - i,
        {
            if self.bytes[i] != other.bytes[i] {
                return false;
            }
            i += 1;
        }
        proof {
            broadcast use vstd::array::group_array_axioms;
            assert(self.bytes =~= other.bytes);
        }
        true
    }
}

impl vstd::std_specs::cmp::PartialEqSpecImpl for AccountId {
    open spec fn obeys_eq_spec() -> bool {
        true
    }

    open spec fn eq_spec(&self, other: &AccountId) -> bool {
        *self == *other
    }
}

/// One of the two assets of the pool.
#[derive(Debug, Clone, Copy, PartialEq, Eq, Structural)]
pub enum Asset {
    A,
    B,
}

/// The direction of a swap: which asset is sold to the pool and which is bought.
#[derive(Debug, Clone, Copy, PartialEq, Eq, Structural)]
pub enum Direction {
    AToB,
    BToA,
}

impl Direction {
    /// The asset that the caller pays in.
    pub open spec fn sold(self) -> Asset {
        match self {
            Direction::AToB => Asset::A,
            Direction::BToA => Asset::B,
        }
    }

    /// The asset that the caller receives.
    pub open spec fn bought(self) -> Asset {
        match self {
            Direction::AToB => Asset::B,
            Direction::BToA => Asset::A,
        }
    }

    /// The asset that the caller pays in.
    pub fn sold_asset(&self) -> (r: Asset)
        ensures
            r == self.sold(),
    {
        match self {
            Direction::AToB => Asset::A,
            Direction::BToA => Asset::B,
        }
    }

    /// The asset that the caller receives.
    pub fn bought_asset(&self) -> (r: Asset)
        ensures
            r == self.bought(),
    {
        match self {
            Direction::AToB => Asset::B,
            Direction::BToA => Asset::A,
        }
    }
}

/// An inbound transfer that came with a call: an asset identifier and an amount.
#[derive(Debug)]
pub struct Payment {
    pub token: String,
    pub amount: u64,
}

/// An outbound transfer that the pool asks the ledger to make.
#[derive(Debug)]
pub struct Transfer {
    pub to: AccountId,
    pub token: String,
    pub amount: u64,
}

/// The audit record of a swap.
#[derive(Debug)]
pub struct SwapEvent {
    pub caller: AccountId,
    pub token_in: String,
    pub token_out: String,
    pub amount_in: u64,
    pub amount_out: u64,
}

/// What a committed swap hands back: the payout to make, then the event to emit.
#[derive(Debug)]
pub struct SwapOutcome {
    pub transfer: Transfer,
    pub event: SwapEvent,
}

/// The mathematical model of a pool.
pub struct PoolState {
    pub owner: AccountId,
    pub fee_collector: AccountId,
    pub asset_a: Seq<char>,
    pub asset_b: Seq<char>,
    pub reserve_a: nat,
    pub reserve_b: nat,
}

/// Amounts of asset `a` and of asset `b` found in `payments`: for each asset, the
/// amount of the last payment in it, or zero where none is in it. A payment is
/// read as one of `a` before it is read as one of `b`.
pub open spec fn received_amounts(payments: Seq<Payment>, a: Seq<char>, b: Seq<char>) -> (nat, nat)
    decreases payments.len(),
{
    if payments.len() == 0 {
        (0, 0)
    } else {
        let before = received_amounts(payments.drop_last(), a, b);
        let p = payments.last();
        if p.token@ == a {
            (p.amount as nat, before.1)
        } else if p.token@ == b {
            (before.0, p.amount as nat)
        } else {
            before
        }
    }
}

impl PoolState {
    /// The reserve of `asset`.
    pub open spec fn reserve_of(self, asset: Asset) -> nat {
        match asset {
            Asset::A => self.reserve_a,
            Asset::B => self.reserve_b,
        }
    }

    /// The identifier of `asset`.
    pub open spec fn token_of(self, asset: Asset) -> Seq<char> {
        match asset {
            Asset::A => self.asset_a,
            Asset::B => self.asset_b,
        }
    }

    /// The same pool with the two reserves replaced.
    pub open spec fn with_reserves(self, reserve_a: nat, reserve_b: nat) -> PoolState {
        PoolState { reserve_a, reserve_b, ..self }
    }

    /// The output of a swap in direction `dir` paid by `payments`, or the first
    /// gate that rejects it.
    pub open spec fn swap_output(self, dir: Direction, payments: Seq<Payment>) -> Result<nat, PoolError> {
        if payments.len() != 1 || payments[0].amount == 0 || payments[0].token@ != self.token_of(
            dir.sold(),
        ) {
            Err(PoolError::InvalidPayment)
        } else {
            let input = payments[0].amount as int;
            let input_reserve = self.reserve_of(dir.sold()) as int;
            let output_reserve = self.reserve_of(dir.bought()) as int;
            let output = output_for(input, input_reserve, output_reserve);
            if input_reserve + input == 0 {
                Err(PoolError::InsufficientLiquidity)
            } else if output <= 0 {
                Err(PoolError::InsufficientOutput)
            } else if output > output_reserve / 2 {
                Err(PoolError::ExceedsMaxSwapSize)
            } else if input_reserve + input > u64::MAX {
                Err(PoolError::Overflow)
            } else {
                Ok(output as nat)
            }
        }
    }

    /// The pool after `input` was paid into the sold asset's reserve and
    /// `output` taken from the bought asset's reserve.
    pub open spec fn after_swap(self, dir: Direction, input: nat, output: nat) -> PoolState {
        match dir {
            Direction::AToB => self.with_reserves(self.reserve_a + input, (self.reserve_b - output) as nat),
            Direction::BToA => self.with_reserves((self.reserve_a - output) as nat, self.reserve_b + input),
        }
    }

    /// The outcome of a deposit by `caller` of `payments`: the new pool, or the
    /// first gate that rejects it.
    pub open spec fn deposit(self, caller: AccountId, payments: Seq<Payment>) -> Result<PoolState, PoolError> {
        let amounts = received_amounts(payments, self.asset_a, self.asset_b);
        if caller != self.owner {
            Err(PoolError::Unauthorized)
        } else if payments.len() != 2 {
            Err(PoolError::WrongAssetCount)
        } else if amounts.0 == 0 || amounts.1 == 0 {
            Err(PoolError::MissingAsset)
        } else if self.reserve_a + amounts.0 > u64::MAX || self.reserve_b + amounts.1 > u64::MAX {
            Err(PoolError::Overflow)
        } else {
            Ok(self.with_reserves(self.reserve_a + amounts.0, self.reserve_b + amounts.1))
        }
    }

    /// The outcome of a withdrawal by `caller` of `amount_a` and `amount_b`.
    pub open spec fn withdrawal(self, caller: AccountId, amount_a: nat, amount_b: nat) -> Result<PoolState, PoolError> {
        if caller != self.owner {
            Err(PoolError::Unauthorized)
        } else if amount_a > self.reserve_a || amount_b > self.reserve_b {
            Err(PoolError::InsufficientReserve)
        } else {
            Ok(self.with_reserves((self.reserve_a - amount_a) as nat, (self.reserve_b - amount_b) as nat))
        }
    }
}

/// A two-asset constant-product pool.
pub struct SwapPool {
    owner: AccountId,
    fee_collector: AccountId,
    asset_a: String,
    asset_b: String,
    reserve_a: u64,
    reserve_b: u64,
}

impl View for SwapPool {
    type V = PoolState;

    closed spec fn view(&self) -> PoolState {
        PoolState {
            owner: self.owner,
            fee_collector: self.fee_collector,
            asset_a: self.asset_a@,
            asset_b: self.asset_b@,
            reserve_a: self.reserve_a as nat,
            reserve_b: self.reserve_b as nat,
        }
    }
}

impl SwapPool {
    /// Creates the pool: `caller` becomes owner and fee collector, and the
    /// reserves start at the amounts given.
    pub fn init(caller: AccountId, asset_a: String, asset_b: String, reserve_a: u64, reserve_b: u64) -> (r: SwapPool)
        ensures
            r@ == (PoolState {
                owner: caller,
                fee_collector: caller,
                asset_a: asset_a@,
                asset_b: asset_b@,
                reserve_a: reserve_a as nat,
                reserve_b: reserve_b as nat,
            }),
    {
        SwapPool { owner: caller, fee_collector: caller, asset_a, asset_b, reserve_a, reserve_b }
    }

    /// Whether `caller` may run the owner's operations.
    pub fn is_owner(&self, caller: &AccountId) -> (r: bool)
        ensures
            r == (*caller == self@.owner),
    {
        *caller == self.owner
    }

    /// The current reserve of `asset`.
    pub fn get_reserve(&self, asset: Asset) -> (r: u64)
        ensures
            r == self@.reserve_of(asset),
    {
        match asset {
            Asset::A => self.reserve_a,
            Asset::B => self.reserve_b,
        }
    }

    /// The identifier of `asset`.
    pub fn token(&self, asset: Asset) -> (r: &String)
        ensures
            r@ == self@.token_of(asset),
    {
        match asset {
            Asset::A => &self.asset_a,
            Asset::B => &self.asset_b,
        }
    }

    /// Swaps the single payment in `payments` for the other asset, in direction
    /// `dir`. The gates run in order: the payment, the pricing, a positive
    /// output, the cap of half the bought reserve, and room in the sold
    /// reserve. On success the reserves move and the payout to `caller` and the
    /// audit event come back; on failure nothing changes.
    pub fn swap(&mut self, caller: &AccountId, dir: Direction, payments: &Vec<Payment>) -> (r: Result<
        SwapOutcome,
        PoolError,
    >)
        ensures
            match r {
                Ok(out) => {
                    &&& old(self)@.swap_output(dir, payments@) == Ok::<nat, PoolError>(
                        out.event.amount_out as nat,
                    )
                    &&& final(self)@ == old(self)@.after_swap(
                        dir,
                        payments@[0].amount as nat,
                        out.event.amount_out as nat,
                    )
                    &&& out.transfer.to == *caller
                    &&& out.transfer.token@ == old(self)@.token_of(dir.bought())
                    &&& out.transfer.amount == out.event.amount_out
                    &&& out.event.caller == *caller
                    &&& out.event.token_in@ == old(self)@.token_of(dir.sold())
                    &&& out.event.token_out@ == old(self)@.token_of(dir.bought())
                    &&& out.event.amount_in == payments@[0].amount
                },
                Err(e) => {
                    &&& old(self)@.swap_output(dir, payments@) == Err::<nat, PoolError>(e)
                    &&& final(self)@ == old(self)@
                },
            },
    {
        let sold = dir.sold_asset();
        let bought = dir.bought_asset();
        if payments.len() != 1 {
            return Err(PoolError::InvalidPayment);
        }
        let payment = &payments[0];
        if payment.amount == 0 || payment.token != *self.token(sold) {
            return Err(PoolError::InvalidPayment);
        }
        let input = payment.amount;
        let input_reserve = self.get_reserve(sold);
        let output_reserve = self.get_reserve(bought);
        let output = match compute_output(input, input_reserve, output_reserve) {
            Ok(v) => v,
            Err(_) => {
                return Err(PoolError::InsufficientLiquidity);
            },
        };
        if output == 0 {
            return Err(PoolError::InsufficientOutput);
        }
        if output > output_reserve / 2 {
            return Err(PoolError::ExceedsMaxSwapSize);
        }
        if input > u64::MAX - input_reserve {
            return Err(PoolError::Overflow);
        }
        let token_in = self.token(sold).clone();
        let token_out = self.token(bought).clone();
        match dir {
            Direction::AToB => {
                self.reserve_a = input_reserve + input;
                self.reserve_b = output_reserve - output;
            },
            Direction::BToA => {
                self.reserve_b = input_reserve + input;
                self.reserve_a = output_reserve - output;
            },
        }
        let transfer = Transfer { to: *caller, token: token_out.clone(), amount: output };
        let event = SwapEvent {
            caller: *caller,
            token_in,
            token_out,
            amount_in: input,
            amount_out: output,
        };
        Ok(SwapOutcome { transfer, event })
    }

    /// Deposits the owner's two payments, one of each asset, into the reserves.
    /// Rejects a caller other than the owner, a count of payments other than
    /// two, and a deposit without a positive amount of each asset.
    pub fn add_liquidity(&mut self, caller: &AccountId, payments: &Vec<Payment>) -> (r: Result<
        (),
        PoolError,
    >)
        ensures
            match old(self)@.deposit(*caller, payments@) {
                Ok(next) => r is Ok && final(self)@ == next,
                Err(e) => r == Err::<(), PoolError>(e) && final(self)@ == old(self)@,
            },
    {
        if !self.is_owner(caller) {
            return Err(PoolError::Unauthorized);
        }
        if payments.len() != 2 {
            return Err(PoolError::WrongAssetCount);
        }
        let mut amount_a: u64 = 0;
        let mut amount_b: u64 = 0;
        let mut i: usize = 0;
        while i < payments.len()
            invariant
                0 <= i <= payments.len(),
                (amount_a as nat, amount_b as nat) == received_amounts(
                    payments@.take(i as int),
                    self.asset_a@,
                    self.asset_b@,
                ),
            decreases payments.len() - i,
        {
            let payment = &payments[i];
            if payment.token == self.asset_a {
                amount_a = payment.amount;
            } else if payment.token == self.asset_b {
                amount_b = payment.amount;
            }
            proof {
                assert(payments@.take(i + 1).drop_last() =~= payments@.take(i as int));
            }
            i += 1;
        }
        proof {
            assert(payments@.take(i as int) =~= payments@);
        }
        if amount_a == 0 || amount_b == 0 {
            return Err(PoolError::MissingAsset);
        }
        if amount_a > u64::MAX - self.reserve_a || amount_b > u64::MAX - self.reserve_b {
            return Err(PoolError::Overflow);
        }
        self.reserve_a = self.reserve_a + amount_a;
        self.reserve_b = self.reserve_b + amount_b;
        Ok(())
    }

    /// Withdraws `amount_a` and `amount_b` from the reserves for the owner, and
    /// hands back the two payouts to make, asset A first.
    pub fn remove_liquidity(&mut self, caller: &AccountId, amount_a: u64, amount_b: u64) -> (r: Result<
        (Transfer, Transfer),
        PoolError,
    >)
        ensures
            match old(self)@.withdrawal(*caller, amount_a as nat, amount_b as nat) {
                Ok(next) => {
                    &&& r is Ok
                    &&& final(self)@ == next
                    &&& r->Ok_0.0.to == *caller
                    &&& r->Ok_0.0.token@ == old(self)@.asset_a
                    &&& r->Ok_0.0.amount == amount_a
                    &&& r->Ok_0.1.to == *caller
                    &&& r->Ok_0.1.token@ == old(self)@.asset_b
                    &&& r->Ok_0.1.amount == amount_b
                },
                Err(e) => r == Err::<(Transfer, Transfer), PoolError>(e) && final(self)@ == old(self)@,
            },
    {
        if !self.is_owner(caller) {
            return Err(PoolError::Unauthorized);
        }
        if amount_a > self.reserve_a || amount_b > self.reserve_b {
            return Err(PoolError::InsufficientReserve);
        }
        self.reserve_a = self.reserve_a - amount_a;
        self.reserve_b = self.reserve_b - amount_b;
        let payout_a = Transfer { to: *caller, token: self.asset_a.clone(), amount: amount_a };
        let payout_b = Transfer { to: *caller, token: self.asset_b.clone(), amount: amount_b };
        Ok((payout_a, payout_b))
    }

    /// Replaces the fee collector; only the owner may.
    pub fn set_fee_collector(&mut self, caller: &AccountId, new_collector: AccountId) -> (r: Result<
        (),
        PoolError,
    >)
        ensures
            *caller == old(self)@.owner ==> r is Ok && final(self)@ == (PoolState {
                fee_collector: new_collector,
                ..old(self)@
            }),
            *caller != old(self)@.owner ==> r == Err::<(), PoolError>(PoolError::Unauthorized)
                && final(self)@ == old(self)@,
    {
        if !self.is_owner(caller) {
            return Err(PoolError::Unauthorized);
        }
        self.fee_collector = new_collector;
        Ok(())
    }

    /// The price of one unit of asset A in units of asset B, scaled by
    /// `PRICE_SCALE` and rounded down; `DivideByZero` while reserve A is empty.
    pub fn get_price(&self) -> (r: Result<u128, PoolError>)
        ensures
            self@.reserve_a == 0 <==> r == Err::<u128, PoolError>(PoolError::DivideByZero),
            self@.reserve_a != 0 ==> r == Ok::<u128, PoolError>(
                price_of(self@.reserve_a as int, self@.reserve_b as int) as u128,
            ),
            r is Ok ==> r->Ok_0 as int == price_of(self@.reserve_a as int, self@.reserve_b as int),
    {
        quote_price(self.reserve_a, self.reserve_b)
    }

    /// The owner of the pool.
    pub fn owner(&self) -> (r: AccountId)
        ensures
            r == self@.owner,
    {
        self.owner
    }

    /// The account recorded as fee collector.
    pub fn fee_collector(&self) -> (r: AccountId)
        ensures
            r == self@.fee_collector,
    {
        self.fee_collector
    }
}

/// A swap that passes every gate never lowers the product of the two reserves.
pub proof fn lemma_swap_keeps_product(s: PoolState, dir: Direction, payments: Seq<Payment>)
    requires
        s.swap_output(dir, payments) is Ok,
    ensures
        ({
            let after = s.after_swap(dir, payments[0].amount as nat, s.swap_output(dir, payments)->Ok_0);
            after.reserve_a * after.reserve_b >= s.reserve_a * s.reserve_b
        }),
{
    let input = payments[0].amount as int;
    let input_reserve = s.reserve_of(dir.sold()) as int;
    let output_reserve = s.reserve_of(dir.bought()) as int;
    lemma_output_keeps_product(input, input_reserve, output_reserve);
    let after = s.after_swap(dir, payments[0].amount as nat, s.swap_output(dir, payments)->Ok_0);
    match dir {
        Direction::AToB => {},
        Direction::BToA => {
            lemma_mul_is_commutative(after.reserve_a as int, after.reserve_b as int);
            lemma_mul_is_commutative(s.reserve_a as int, s.reserve_b as int);
        },
    }
}

/// A swap that passes every gate raises the sold asset's reserve by the whole
/// input and lowers the bought asset's reserve by the output, both positive;
/// the bought reserve is never emptied, and nothing else in the pool changes.
pub proof fn lemma_swap_moves_reserves(s: PoolState, dir: Direction, payments: Seq<Payment>)
    requires
        s.swap_output(dir, payments) is Ok,
    ensures
        ({
            let input = payments[0].amount as nat;
            let output = s.swap_output(dir, payments)->Ok_0;
            let after = s.after_swap(dir, input, output);
            &&& input > 0
            &&& output > 0
            &&& after.reserve_of(dir.sold()) == s.reserve_of(dir.sold()) + input
            &&& after.reserve_of(dir.bought()) == s.reserve_of(dir.bought()) - output
            &&& after.reserve_of(dir.bought()) > 0
            &&& after.owner == s.owner
            &&& after.fee_collector == s.fee_collector
            &&& after.asset_a == s.asset_a
            &&& after.asset_b == s.asset_b
        }),
{
}

/// A single positive payment in the sold asset, whose quoted output is positive,
/// at most half the bought reserve, and whose sum with the sold reserve fits in
/// a `u64`, passes every gate of a swap with that output.
pub proof fn lemma_valid_swap_succeeds(s: PoolState, dir: Direction, payments: Seq<Payment>)
    requires
        payments.len() == 1,
        payments[0].amount > 0,
        payments[0].token@ == s.token_of(dir.sold()),
        ({
            let output = output_for(
                payments[0].amount as int,
                s.reserve_of(dir.sold()) as int,
                s.reserve_of(dir.bought()) as int,
            );
            0 < output <= s.reserve_of(dir.bought()) / 2
        }),
        s.reserve_of(dir.sold()) + payments[0].amount <= u64::MAX,
    ensures
        s.swap_output(dir, payments) == Ok::<nat, PoolError>(
            output_for(
                payments[0].amount as int,
                s.reserve_of(dir.sold()) as int,
                s.reserve_of(dir.bought()) as int,
            ) as nat,
        ),
{
}

/// Selling asset A to the pool never raises the price of A in B, and selling
/// asset B never lowers it, while reserve A is not empty.
pub proof fn lemma_swap_moves_price(s: PoolState, dir: Direction, payments: Seq<Payment>)
    requires
        s.swap_output(dir, payments) is Ok,
        s.reserve_a > 0,
    ensures
        ({
            let after = s.after_swap(dir, payments[0].amount as nat, s.swap_output(dir, payments)->Ok_0);
            &&& after.reserve_a > 0
            &&& dir == Direction::AToB ==> price_of(after.reserve_a as int, after.reserve_b as int)
                <= price_of(s.reserve_a as int, s.reserve_b as int)
            &&& dir == Direction::BToA ==> price_of(after.reserve_a as int, after.reserve_b as int)
                >= price_of(s.reserve_a as int, s.reserve_b as int)
        }),
{
    let after = s.after_swap(dir, payments[0].amount as nat, s.swap_output(dir, payments)->Ok_0);
    lemma_swap_moves_reserves(s, dir, payments);
    match dir {
        Direction::AToB => {
            lemma_price_falls_as_a_grows(
                s.reserve_a as int,
                s.reserve_b as int,
                after.reserve_a as int,
                after.reserve_b as int,
            );
        },
        Direction::BToA => {
            lemma_price_falls_as_a_grows(
                after.reserve_a as int,
                after.reserve_b as int,
                s.reserve_a as int,
                s.reserve_b as int,
            );
        },
    }
}

} // verus!
