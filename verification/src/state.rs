//! The pool record: identity, reserves, fee state, price history, statistics and
//! the swap guard.

use crate::error::SwapError;
use anchor_lang::prelude::Pubkey;
use vstd::prelude::*;

verus! {

/// Number of price samples the history keeps.
pub const PRICE_HISTORY_LEN: usize = 50;

/// Below this many recorded samples the base fee applies unchanged.
pub const MIN_PRICE_SAMPLES: u8 = 5;

/// Volatility is measured on at most this many prices, from the start of the ring.
pub const MAX_VOLATILITY_SAMPLES: u8 = 49;

/// Lowest fee tier a pool can be created with, in basis points.
pub const MIN_FEE_TIER_BPS: u16 = 5;

/// Highest fee, in basis points: one percent.
pub const MAX_FEE_BPS: u16 = 100;

/// Fixed-point unit of volatility and of the fee multiplier: `1_000_000_000` stands for `1.0`.
pub const VOLATILITY_SCALE: u64 = 1_000_000_000;

/// The fee multiplier never exceeds `3.0`.
pub const MAX_FEE_MULTIPLIER: u64 = 3_000_000_000;

/// `solana_program::pubkey::Pubkey`, as `anchor_lang::prelude` hands it on: an
/// account address of the ledger, 32 bytes wide. The pool stores and compares
/// addresses and never looks inside one, so nothing of its contents is declared.
#[verifier::external_type_specification]
#[verifier::external_body]
pub struct ExPubkey(Pubkey);

/// The 32 bytes of an address, as `Pubkey::to_bytes` returns them.
pub uninterp spec fn key_bytes(key: Pubkey) -> Seq<u8>;

/// The bytes of the address that a blank record holds: 32 zeros.
pub open spec fn zero_key_bytes() -> Seq<u8> {
    Seq::new(32, |i: int| 0u8)
}

/// `PartialEq::eq` of `Pubkey`, derived on its 32 bytes: it returns `true`
/// exactly when the two addresses are the same address, which is when their bytes
/// are the same. This is believed, not proved.
#[verifier::external_body]
pub(crate) fn same_key(a: &Pubkey, b: &Pubkey) -> (same: bool)
    ensures
        same == (*a == *b),
        same == (key_bytes(*a) == key_bytes(*b)),
{
    a == b
}

/// `Default::default` of `Pubkey`, derived on its 32 bytes: the address whose
/// bytes are all zero. This is believed, not proved.
#[verifier::external_body]
pub(crate) fn default_key() -> (key: Pubkey)
    ensures
        key_bytes(key) == zero_key_bytes(),
{
    Pubkey::default()
}

/// One of the two assets of a pool.
#[derive(Clone, Copy, Debug, PartialEq, Eq, Structural)]
pub enum Asset {
    A,
    B,
}

impl Asset {
    /// The other asset of the pool.
    pub open spec fn opposite(self) -> Asset {
        match self {
            Asset::A => Asset::B,
            Asset::B => Asset::A,
        }
    }

    /// The other asset of the pool.
    pub fn other(self) -> (asset: Asset)
        ensures
            asset == self.opposite(),
    {
        match self {
            Asset::A => Asset::B,
            Asset::B => Asset::A,
        }
    }
}

/// One pool per pair of assets.
#[derive(Clone, Copy, Debug, PartialEq, Eq)]
pub struct LiquidityPool {
    pub authority: Pubkey,
    pub token_a_mint: Pubkey,
    pub token_b_mint: Pubkey,
    pub token_a_vault: Pubkey,
    pub token_b_vault: Pubkey,
    pub lp_mint: Pubkey,
    /// Quantity of asset A held by the pool.
    pub reserve_a: u64,
    /// Quantity of asset B held by the pool.
    pub reserve_b: u64,
    /// Fee tier chosen at creation, in basis points.
    pub base_fee_bps: u16,
    /// Fee committed by the last refresh, in basis points.
    pub volatility_fee_bps: u16,
    /// The price recorded last.
    pub last_price: u64,
    /// Time-step at which the pool was created or a fee was last committed.
    pub last_update_slot: u64,
    /// Ring of the most recent prices.
    pub price_history: [u64; 50],
    /// Where the next price is written.
    pub history_index: u8,
    /// How many prices the ring holds. It stops at `PRICE_HISTORY_LEN`.
    pub history_len: u8,
    pub total_volume_usd: u128,
    pub total_fees_collected: u64,
    pub created_at: i64,
    pub is_initialized: bool,
    /// Held for the duration of a swap.
    pub is_locked: bool,
    pub bump: u8,
}

/// The pool as mathematics: unbounded numbers and a sequence of prices.
pub struct PoolView {
    pub authority: Pubkey,
    pub token_a_mint: Pubkey,
    pub token_b_mint: Pubkey,
    pub token_a_vault: Pubkey,
    pub token_b_vault: Pubkey,
    pub lp_mint: Pubkey,
    pub reserve_a: nat,
    pub reserve_b: nat,
    pub base_fee_bps: nat,
    pub volatility_fee_bps: nat,
    pub last_price: nat,
    pub last_update_slot: nat,
    pub price_history: Seq<nat>,
    pub history_index: nat,
    pub history_len: nat,
    pub total_volume_usd: nat,
    pub total_fees_collected: nat,
    pub created_at: int,
    pub is_initialized: bool,
    pub is_locked: bool,
    pub bump: nat,
}

impl View for LiquidityPool {
    type V = PoolView;

    open spec fn view(&self) -> PoolView {
        PoolView {
            authority: self.authority,
            token_a_mint: self.token_a_mint,
            token_b_mint: self.token_b_mint,
            token_a_vault: self.token_a_vault,
            token_b_vault: self.token_b_vault,
            lp_mint: self.lp_mint,
            reserve_a: self.reserve_a as nat,
            reserve_b: self.reserve_b as nat,
            base_fee_bps: self.base_fee_bps as nat,
            volatility_fee_bps: self.volatility_fee_bps as nat,
            last_price: self.last_price as nat,
            last_update_slot: self.last_update_slot as nat,
            price_history: self.price_history@.map_values(|price: u64| price as nat),
            history_index: self.history_index as nat,
            history_len: self.history_len as nat,
            total_volume_usd: self.total_volume_usd as nat,
            total_fees_collected: self.total_fees_collected as nat,
            created_at: self.created_at as int,
            is_initialized: self.is_initialized,
            is_locked: self.is_locked,
            bump: self.bump as nat,
        }
    }
}

/// The view loses nothing: pools with the same view are the same pool.
pub proof fn lemma_view_is_faithful(a: LiquidityPool, b: LiquidityPool)
    requires
        a@ == b@,
    ensures
        a == b,
{
    assert forall|i: int| 0 <= i < PRICE_HISTORY_LEN implies a.price_history[i]
        == b.price_history[i] by {
        assert(a@.price_history[i] == a.price_history[i] as nat);
        assert(b@.price_history[i] == b.price_history[i] as nat);
    }
    assert(a.price_history =~= b.price_history);
}

/// The fee multiplier for a volatility, both in units of `VOLATILITY_SCALE`:
/// `1 + 2 * volatility`, capped at `3`.
pub open spec fn fee_multiplier(volatility: nat) -> nat {
    if VOLATILITY_SCALE + 2 * volatility <= MAX_FEE_MULTIPLIER {
        (VOLATILITY_SCALE + 2 * volatility) as nat
    } else {
        MAX_FEE_MULTIPLIER as nat
    }
}

/// The fee in basis points that applies to the next swap, where `samples` is the
/// number of prices recorded so far: the base fee while that is fewer than
/// `MIN_PRICE_SAMPLES`, else the base fee times the multiplier, rounded down and
/// capped at `MAX_FEE_BPS`.
pub open spec fn adaptive_fee(base_fee_bps: nat, samples: nat, volatility: nat) -> nat {
    if samples < MIN_PRICE_SAMPLES {
        base_fee_bps
    } else {
        let scaled = base_fee_bps * fee_multiplier(volatility) / (VOLATILITY_SCALE as nat);
        if scaled <= MAX_FEE_BPS {
            scaled
        } else {
            MAX_FEE_BPS as nat
        }
    }
}

/// The adaptive fee lies between the base fee and `MAX_FEE_BPS`, whatever the
/// volatility, as long as the base fee itself is within `MAX_FEE_BPS`.
pub proof fn lemma_adaptive_fee_bounds(base_fee_bps: nat, samples: nat, volatility: nat)
    requires
        base_fee_bps <= MAX_FEE_BPS,
    ensures
        base_fee_bps <= adaptive_fee(base_fee_bps, samples, volatility) <= MAX_FEE_BPS,
{
    let multiplier = fee_multiplier(volatility);
    let scale = VOLATILITY_SCALE as nat;
    let scaled = base_fee_bps * multiplier / scale;
    assert(base_fee_bps <= scaled) by (nonlinear_arith)
        requires
            multiplier >= scale,
            scale > 0,
            scaled == base_fee_bps * multiplier / scale,
    ;
}

/// The steps `(previous, current)` between consecutive prices among the first
/// `count` of `prices`, in order, leaving out those that start from a price of
/// zero, from which no return can be taken.
pub open spec fn price_steps(prices: Seq<nat>, count: nat) -> Seq<(nat, nat)>
    decreases count,
{
    if count <= 1 {
        Seq::empty()
    } else {
        let earlier = price_steps(prices, (count - 1) as nat);
        let previous = prices[count - 2];
        let current = prices[count - 1];
        if previous > 0 {
            earlier.push((previous, current))
        } else {
            earlier
        }
    }
}

impl PoolView {
    /// Which asset of the pool `mint` is, if either. A pool whose two assets are the
    /// same takes it for A.
    pub open spec fn asset_of(self, mint: Pubkey) -> Option<Asset> {
        if mint == self.token_a_mint {
            Some(Asset::A)
        } else if mint == self.token_b_mint {
            Some(Asset::B)
        } else {
            None
        }
    }

    /// The quantity of `asset` that the pool holds.
    pub open spec fn reserve(self, asset: Asset) -> nat {
        match asset {
            Asset::A => self.reserve_a,
            Asset::B => self.reserve_b,
        }
    }

    /// The pool holding `quantity` of `asset` and otherwise as it is.
    pub open spec fn with_reserve(self, asset: Asset, quantity: nat) -> PoolView {
        match asset {
            Asset::A => PoolView { reserve_a: quantity, ..self },
            Asset::B => PoolView { reserve_b: quantity, ..self },
        }
    }

    /// What holds of a pool between operations: the cursor is inside the ring and,
    /// until the ring is full, stands right after the prices it holds; the fees are
    /// within their limits; and the pool holds either both assets or neither.
    pub open spec fn well_formed(self) -> bool {
        &&& self.price_history.len() == PRICE_HISTORY_LEN
        &&& self.history_index < PRICE_HISTORY_LEN
        &&& self.history_len <= PRICE_HISTORY_LEN
        &&& self.history_len < PRICE_HISTORY_LEN ==> self.history_index == self.history_len
        &&& self.base_fee_bps <= MAX_FEE_BPS
        &&& self.is_initialized ==> self.base_fee_bps >= MIN_FEE_TIER_BPS
        &&& self.volatility_fee_bps <= MAX_FEE_BPS
        &&& (self.reserve_a == 0) == (self.reserve_b == 0)
    }

    /// How many prices the ring holds: the count on record, `PRICE_HISTORY_LEN` at
    /// most.
    pub open spec fn prices_held(self) -> nat {
        if self.history_len < PRICE_HISTORY_LEN {
            self.history_len
        } else {
            PRICE_HISTORY_LEN as nat
        }
    }

    /// The prices that the ring holds, in the order in which they were written,
    /// oldest first: the `prices_held` slots that end right before the cursor,
    /// going round the ring.
    pub open spec fn recorded_prices(self) -> Seq<nat> {
        let len = PRICE_HISTORY_LEN as int;
        let oldest = self.history_index % (PRICE_HISTORY_LEN as nat) + len - self.prices_held();
        Seq::new(self.prices_held(), |k: int| self.price_history[(oldest + k) % len])
    }

    /// The pool after `price` has been written at the cursor, overwriting the
    /// oldest price once the ring is full: the cursor has moved on, wrapping at the
    /// end of the ring, and the ring holds one price more unless it was full.
    pub open spec fn record_price(self, price: nat) -> PoolView {
        PoolView {
            price_history: self.price_history.update(
                (self.history_index % (PRICE_HISTORY_LEN as nat)) as int,
                price,
            ),
            history_index: (self.history_index + 1) % (PRICE_HISTORY_LEN as nat),
            history_len: if self.history_len < PRICE_HISTORY_LEN {
                self.history_len + 1
            } else {
                PRICE_HISTORY_LEN as nat
            },
            last_price: price,
            ..self
        }
    }

    /// The fee that applies to the next swap, given the volatility measured on the
    /// prices recorded.
    pub open spec fn effective_fee(self, volatility: nat) -> nat {
        adaptive_fee(self.base_fee_bps, self.history_len, volatility)
    }

    /// The price steps on which volatility is measured: none while fewer than
    /// `MIN_PRICE_SAMPLES` prices are recorded, else the steps between the recorded
    /// prices, oldest first, over `MAX_VOLATILITY_SAMPLES` prices at most.
    pub open spec fn volatility_steps(self) -> Seq<(nat, nat)> {
        if self.history_len < MIN_PRICE_SAMPLES {
            Seq::empty()
        } else if self.prices_held() < MAX_VOLATILITY_SAMPLES {
            price_steps(self.recorded_prices(), self.prices_held())
        } else {
            price_steps(self.recorded_prices(), MAX_VOLATILITY_SAMPLES as nat)
        }
    }
}

/// Recording a price puts it last among the recorded prices. While the ring has
/// room the earlier prices all stay; once it is full the oldest one leaves. The
/// number of prices recorded never goes down.
pub proof fn lemma_record_price_appends(pool: PoolView, price: nat)
    requires
        pool.well_formed(),
    ensures
        pool.record_price(price).well_formed(),
        pool.record_price(price).history_len >= pool.history_len,
        pool.history_len < PRICE_HISTORY_LEN ==> pool.record_price(price).recorded_prices()
            == pool.recorded_prices().push(price),
        pool.history_len == PRICE_HISTORY_LEN ==> pool.record_price(price).recorded_prices()
            == pool.recorded_prices().drop_first().push(price),
{
    let next = pool.record_price(price);
    if pool.history_len < PRICE_HISTORY_LEN {
        assert(next.recorded_prices() =~= pool.recorded_prices().push(price));
    } else {
        assert(next.recorded_prices() =~= pool.recorded_prices().drop_first().push(price));
    }
}

/// A price step as mathematics.
pub open spec fn step_view(step: (u64, u64)) -> (nat, nat) {
    (step.0 as nat, step.1 as nat)
}

impl LiquidityPool {
    /// See `PoolView::well_formed`.
    pub open spec fn wf(&self) -> bool {
        self@.well_formed()
    }

    /// Tests `wf`.
    pub fn is_well_formed(&self) -> (ok: bool)
        ensures
            ok == self.wf(),
    {
        let cursor_in_ring: bool = (self.history_index as usize) < PRICE_HISTORY_LEN;
        let count_in_ring: bool = (self.history_len as usize) <= PRICE_HISTORY_LEN;
        let cursor_after_prices: bool = (self.history_len as usize) >= PRICE_HISTORY_LEN
            || self.history_index == self.history_len;
        let base_fee_in_range: bool = self.base_fee_bps <= MAX_FEE_BPS && (!self.is_initialized
            || self.base_fee_bps >= MIN_FEE_TIER_BPS);
        let committed_fee_in_range: bool = self.volatility_fee_bps <= MAX_FEE_BPS;
        let both_or_neither: bool = (self.reserve_a == 0) == (self.reserve_b == 0);
        cursor_in_ring && count_in_ring && cursor_after_prices && base_fee_in_range
            && committed_fee_in_range && both_or_neither
    }

    /// The fee in basis points for the next swap. `volatility` is the standard
    /// deviation of the returns over the price steps that `volatility_steps` gives,
    /// in units of `VOLATILITY_SCALE`. Taking it needs floating point and is left to
    /// the caller.
    pub fn calculate_adaptive_fee(&self, volatility: u64) -> (fee: u16)
        ensures
            fee == self@.effective_fee(volatility as nat),
            self.base_fee_bps <= MAX_FEE_BPS ==> self.base_fee_bps <= fee <= MAX_FEE_BPS,
    {
        proof {
            if self.base_fee_bps <= MAX_FEE_BPS {
                lemma_adaptive_fee_bounds(
                    self.base_fee_bps as nat,
                    self.history_len as nat,
                    volatility as nat,
                );
            }
        }
        if self.history_len < MIN_PRICE_SAMPLES {
            return self.base_fee_bps;
        }
        let multiplier: u64 = if volatility >= VOLATILITY_SCALE {
            MAX_FEE_MULTIPLIER
        } else {
            VOLATILITY_SCALE + 2 * volatility
        };
        assert(self.base_fee_bps * multiplier <= 0xffff * 3_000_000_000) by (nonlinear_arith)
            requires
                self.base_fee_bps <= 0xffff,
                multiplier <= 3_000_000_000,
        ;
        let scaled: u64 = (self.base_fee_bps as u64) * multiplier / VOLATILITY_SCALE;
        if scaled > MAX_FEE_BPS as u64 {
            MAX_FEE_BPS
        } else {
            scaled as u16
        }
    }

    /// The price steps `(previous, current)` on which volatility is to be
    /// measured. Volatility is the standard deviation of the returns
    /// `(current - previous) / previous` over these steps, and zero where there are
    /// none; `calculate_adaptive_fee` takes it as a fixed-point number.
    pub fn volatility_steps(&self) -> (steps: Vec<(u64, u64)>)
        ensures
            steps@.map_values(|step: (u64, u64)| step_view(step)) == self@.volatility_steps(),
    {
        let mut steps: Vec<(u64, u64)> = Vec::new();
        if self.history_len < MIN_PRICE_SAMPLES {
            assert(steps@.map_values(|step: (u64, u64)| step_view(step)) =~= Seq::empty());
            return steps;
        }
        let held: usize = if (self.history_len as usize) < PRICE_HISTORY_LEN {
            self.history_len as usize
        } else {
            PRICE_HISTORY_LEN
        };
        let count: usize = if held < MAX_VOLATILITY_SAMPLES as usize {
            held
        } else {
            MAX_VOLATILITY_SAMPLES as usize
        };
        // The slot of the oldest price, still to be reduced to the ring.
        let oldest: usize = (self.history_index as usize) % PRICE_HISTORY_LEN + PRICE_HISTORY_LEN
            - held;
        let ghost prices = self@.recorded_prices();
        let mut i: usize = 1;
        assert(steps@.map_values(|step: (u64, u64)| step_view(step)) =~= price_steps(prices, 1));
        while i < count
            invariant
                1 <= i <= count <= held <= PRICE_HISTORY_LEN,
                held == self@.prices_held(),
                oldest == (self.history_index as nat) % (PRICE_HISTORY_LEN as nat)
                    + PRICE_HISTORY_LEN - held,
                prices == self@.recorded_prices(),
                steps@.map_values(|step: (u64, u64)| step_view(step)) == price_steps(
                    prices,
                    i as nat,
                ),
            decreases count - i,
        {
            let previous: u64 = self.price_history[(oldest + i - 1) % PRICE_HISTORY_LEN];
            let current: u64 = self.price_history[(oldest + i) % PRICE_HISTORY_LEN];
            assert(prices[i - 1] == previous as nat && prices[i as int] == current as nat);
            let ghost before = steps@;
            if previous > 0 {
                steps.push((previous, current));
                assert(steps@.map_values(|step: (u64, u64)| step_view(step)) =~= before.map_values(
                    |step: (u64, u64)| step_view(step),
                ).push(step_view((previous, current))));
            }
            i = i + 1;
        }
        steps
    }

    /// Writes `new_price` at the cursor of the ring, overwriting the oldest price
    /// once the ring is full, moves the cursor on and counts the price.
    pub fn update_price_history(&mut self, new_price: u64)
        ensures
            final(self)@ == old(self)@.record_price(new_price as nat),
            final(self).history_index < PRICE_HISTORY_LEN,
            1 <= final(self).history_len <= PRICE_HISTORY_LEN,
            old(self).history_len < PRICE_HISTORY_LEN ==> final(self).history_len
                == old(self).history_len + 1,
    {
        let index: usize = (self.history_index as usize) % PRICE_HISTORY_LEN;
        self.price_history[index] = new_price;
        self.history_index = ((self.history_index as usize + 1) % PRICE_HISTORY_LEN) as u8;
        self.history_len = if (self.history_len as usize) < PRICE_HISTORY_LEN {
            self.history_len + 1
        } else {
            PRICE_HISTORY_LEN as u8
        };
        self.last_price = new_price;
        assert(self@.price_history =~= old(self)@.record_price(new_price as nat).price_history);
    }

    /// Which asset of the pool `mint` is. An address that is neither is refused.
    pub fn asset_of(&self, mint: &Pubkey) -> (res: Result<Asset, SwapError>)
        ensures
            match self@.asset_of(*mint) {
                Some(asset) => res == Ok::<Asset, SwapError>(asset),
                None => res == Err::<Asset, SwapError>(SwapError::InvalidTokenMint),
            },
    {
        if same_key(mint, &self.token_a_mint) {
            Ok(Asset::A)
        } else if same_key(mint, &self.token_b_mint) {
            Ok(Asset::B)
        } else {
            Err(SwapError::InvalidTokenMint)
        }
    }

    /// The quantity of `asset` that the pool holds.
    pub fn reserve(&self, asset: Asset) -> (quantity: u64)
        ensures
            quantity == self@.reserve(asset),
    {
        match asset {
            Asset::A => self.reserve_a,
            Asset::B => self.reserve_b,
        }
    }

    /// Adds `amount` to the reserve of `asset`. A sum that does not fit is an
    /// overflow and changes nothing.
    pub fn increase(&mut self, asset: Asset, amount: u64) -> (res: Result<(), SwapError>)
        ensures
            match res {
                Ok(_) => {
                    &&& old(self)@.reserve(asset) + amount <= u64::MAX
                    &&& final(self)@ == old(self)@.with_reserve(
                        asset,
                        old(self)@.reserve(asset) + (amount as nat),
                    )
                },
                Err(e) => {
                    &&& old(self)@.reserve(asset) + amount > u64::MAX
                    &&& e == SwapError::MathOverflow
                    &&& *final(self) == *old(self)
                },
            },
    {
        match asset {
            Asset::A => {
                self.reserve_a = self.reserve_a.checked_add(amount).ok_or(SwapError::MathOverflow)?;
            },
            Asset::B => {
                self.reserve_b = self.reserve_b.checked_add(amount).ok_or(SwapError::MathOverflow)?;
            },
        }
        Ok(())
    }

    /// Takes `amount` from the reserve of `asset`. More than the pool holds is an
    /// underflow and changes nothing.
    pub fn decrease(&mut self, asset: Asset, amount: u64) -> (res: Result<(), SwapError>)
        ensures
            match res {
                Ok(_) => {
                    &&& amount <= old(self)@.reserve(asset)
                    &&& final(self)@ == old(self)@.with_reserve(
                        asset,
                        (old(self)@.reserve(asset) - amount) as nat,
                    )
                },
                Err(e) => {
                    &&& amount > old(self)@.reserve(asset)
                    &&& e == SwapError::MathOverflow
                    &&& *final(self) == *old(self)
                },
            },
    {
        match asset {
            Asset::A => {
                self.reserve_a = self.reserve_a.checked_sub(amount).ok_or(SwapError::MathOverflow)?;
            },
            Asset::B => {
                self.reserve_b = self.reserve_b.checked_sub(amount).ok_or(SwapError::MathOverflow)?;
            },
        }
        Ok(())
    }

    /// Takes the swap guard. Fails, and changes nothing, if it is already held.
    pub fn lock(&mut self) -> (res: Result<(), SwapError>)
        ensures
            match res {
                Ok(_) => {
                    &&& !old(self).is_locked
                    &&& final(self)@ == (PoolView { is_locked: true, ..old(self)@ })
                },
                Err(e) => {
                    &&& old(self).is_locked
                    &&& e == SwapError::PoolLocked
                    &&& *final(self) == *old(self)
                },
            },
    {
        if self.is_locked {
            return Err(SwapError::PoolLocked);
        }
        self.is_locked = true;
        Ok(())
    }

    /// Releases the swap guard, whether or not it was held.
    pub fn unlock(&mut self)
        ensures
            final(self)@ == (PoolView { is_locked: false, ..old(self)@ }),
    {
        self.is_locked = false;
    }
}

impl Default for LiquidityPool {
    /// A record that is not a pool yet: nothing initialized, everything zero.
    fn default() -> (pool: Self)
        ensures
            !pool.is_initialized,
            !pool.is_locked,
            pool.reserve_a == 0,
            pool.reserve_b == 0,
            pool.base_fee_bps == 0,
            pool.volatility_fee_bps == 0,
            pool.last_price == 0,
            pool.last_update_slot == 0,
            pool.price_history@ == Seq::new(PRICE_HISTORY_LEN as nat, |i: int| 0u64),
            pool.history_index == 0,
            pool.history_len == 0,
            pool.total_volume_usd == 0,
            pool.total_fees_collected == 0,
            pool.created_at == 0,
            pool.bump == 0,
            key_bytes(pool.authority) == zero_key_bytes(),
            key_bytes(pool.token_a_mint) == zero_key_bytes(),
            key_bytes(pool.token_b_mint) == zero_key_bytes(),
            key_bytes(pool.token_a_vault) == zero_key_bytes(),
            key_bytes(pool.token_b_vault) == zero_key_bytes(),
            key_bytes(pool.lp_mint) == zero_key_bytes(),
            pool.wf(),
    {
        let pool = LiquidityPool {
            authority: default_key(),
            token_a_mint: default_key(),
            token_b_mint: default_key(),
            token_a_vault: default_key(),
            token_b_vault: default_key(),
            lp_mint: default_key(),
            reserve_a: 0,
            reserve_b: 0,
            base_fee_bps: 0,
            volatility_fee_bps: 0,
            last_price: 0,
            last_update_slot: 0,
            price_history: [0; 50],
            history_index: 0,
            history_len: 0,
            total_volume_usd: 0,
            total_fees_collected: 0,
            created_at: 0,
            is_initialized: false,
            is_locked: false,
            bump: 0,
        };
        assert(pool.price_history@ =~= Seq::new(PRICE_HISTORY_LEN as nat, |i: int| 0u64));
        pool
    }
}

/// What one owner holds in one pool.
#[derive(Clone, Copy, Debug, PartialEq, Eq)]
pub struct UserPosition {
    pub owner: Pubkey,
    pub pool: Pubkey,
    pub lp_token_balance: u64,
    pub deposited_a: u64,
    pub deposited_b: u64,
    pub earned_fees: u64,
    pub last_interaction: i64,
    pub bump: u8,
}

impl Default for UserPosition {
    /// An empty position.
    fn default() -> (position: Self)
        ensures
            position.lp_token_balance == 0,
            position.deposited_a == 0,
            position.deposited_b == 0,
            position.earned_fees == 0,
            position.last_interaction == 0,
            position.bump == 0,
            key_bytes(position.owner) == zero_key_bytes(),
            key_bytes(position.pool) == zero_key_bytes(),
    {
        UserPosition {
            owner: default_key(),
            pool: default_key(),
            lp_token_balance: 0,
            deposited_a: 0,
            deposited_b: 0,
            earned_fees: 0,
            last_interaction: 0,
            bump: 0,
        }
    }
}

} // verus!
