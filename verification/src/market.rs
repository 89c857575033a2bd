//! Goods, prices, the cargo hold, and the buy/sell rules.

use vstd::prelude::*;
use crate::rng::{Rng, draw, range_value, xorshift};
use crate::text::{chars_to_string, to_chars, to_lowercase, trim, trim_chars, lowercase};

verus! {

/// The four tradable goods, in canonical display order.
#[derive(Debug, Clone, Copy, PartialEq, Eq, Structural)]
pub enum Good {
    Opium,
    Silk,
    Arms,
    General,
}

/// The good in slot `i` of the four-slot price and cargo arrays.
pub open spec fn good_at(i: int) -> Good {
    if i == 0 {
        Good::Opium
    } else if i == 1 {
        Good::Silk
    } else if i == 2 {
        Good::Arms
    } else {
        Good::General
    }
}

/// `a` is a prefix of `b`.
pub open spec fn prefix_of(a: Seq<char>, b: Seq<char>) -> bool {
    a.len() <= b.len() && b.take(a.len() as int) == a
}

impl Good {
    /// All goods in display order.
    pub const ALL: [Good; 4] = [Good::Opium, Good::Silk, Good::Arms, Good::General];

    /// Slot of this good in the four-slot arrays.
    pub open spec fn slot(self) -> int {
        match self {
            Good::Opium => 0,
            Good::Silk => 1,
            Good::Arms => 2,
            Good::General => 3,
        }
    }

    /// The display name.
    pub open spec fn title(self) -> Seq<char> {
        match self {
            Good::Opium => "Opium"@,
            Good::Silk => "Silk"@,
            Good::Arms => "Arms"@,
            Good::General => "General Cargo"@,
        }
    }

    /// Lowest base price.
    pub open spec fn low(self) -> u32 {
        match self {
            Good::Opium => 500,
            Good::Silk => 40,
            Good::Arms => 350,
            Good::General => 10,
        }
    }

    /// Highest base price.
    pub open spec fn high(self) -> u32 {
        match self {
            Good::Opium => 1500,
            Good::Silk => 180,
            Good::Arms => 900,
            Good::General => 50,
        }
    }

    /// The good a lowercased, trimmed word names: a nonempty prefix of a good's
    /// lowercase name, the first match in display order.
    pub open spec fn named_by(w: Seq<char>) -> Option<Good> {
        if w.len() == 0 {
            None
        } else if prefix_of(w, "opium"@) {
            Some(Good::Opium)
        } else if prefix_of(w, "silk"@) {
            Some(Good::Silk)
        } else if prefix_of(w, "arms"@) {
            Some(Good::Arms)
        } else if prefix_of(w, "general"@) {
            Some(Good::General)
        } else {
            None
        }
    }

    /// The good at a slot.
    pub fn from_index(i: usize) -> (g: Good)
        requires
            i < 4,
        ensures
            g == good_at(i as int),
            g.slot() == i,
    {
        if i == 0 {
            Good::Opium
        } else if i == 1 {
            Good::Silk
        } else if i == 2 {
            Good::Arms
        } else {
            Good::General
        }
    }

    /// Index into the 4-slot arrays used for prices and cargo.
    pub fn index(self) -> (i: usize)
        ensures
            i == self.slot(),
            i < 4,
            good_at(i as int) == self,
    {
        match self {
            Good::Opium => 0,
            Good::Silk => 1,
            Good::Arms => 2,
            Good::General => 3,
        }
    }

    /// Human-readable name.
    pub fn name(self) -> (n: &'static str)
        ensures
            n@ == self.title(),
    {
        match self {
            Good::Opium => "Opium",
            Good::Silk => "Silk",
            Good::Arms => "Arms",
            Good::General => "General Cargo",
        }
    }

    /// `(low, high)` base price range.
    fn price_range(self) -> (r: (u32, u32))
        ensures
            r.0 == self.low(),
            r.1 == self.high(),
            r.0 <= r.1,
    {
        match self {
            Good::Opium => (500, 1500),
            Good::Silk => (40, 180),
            Good::Arms => (350, 900),
            Good::General => (10, 50),
        }
    }

    /// The good named by an already trimmed and lowercased word.
    pub fn from_word(word: &str) -> (g: Option<Good>)
        ensures
            g == Good::named_by(word@),
    {
        let w = to_chars(word);
        if w.len() == 0 {
            return None;
        }
        if starts(&w, "opium") {
            Some(Good::Opium)
        } else if starts(&w, "silk") {
            Some(Good::Silk)
        } else if starts(&w, "arms") {
            Some(Good::Arms)
        } else if starts(&w, "general") {
            Some(Good::General)
        } else {
            None
        }
    }

    /// Parse a good from user input: trimmed, case-insensitive, prefix-friendly.
    pub fn parse(input: &str) -> (g: Option<Good>)
        ensures
            g == Good::named_by(lowercase(trim(input@))),
    {
        let t = trim_chars(&to_chars(input));
        let low = to_lowercase(&t);
        let s = chars_to_string(&low);
        Good::from_word(s.as_str())
    }
}

/// Whether the characters `w` form a prefix of `name`.
fn starts(w: &Vec<char>, name: &str) -> (b: bool)
    ensures
        b == prefix_of(w@, name@),
{
    let n = to_chars(name);
    if w.len() > n.len() {
        return false;
    }
    let mut i: usize = 0;
    while i < w.len()
        invariant
            w@.len() <= n@.len(),
            n@ == name@,
            i <= w@.len(),
            forall|k: int| 0 <= k < i ==> w@[k] == n@[k],
        decreases w@.len() - i,
    {
        if w[i] != n[i] {
            assert(n@.take(w@.len() as int)[i as int] != w@[i as int]);
            return false;
        }
        i = i + 1;
    }
    assert(n@.take(w@.len() as int) == w@);
    true
}

/// Errors a buy or sell attempt can produce.
#[derive(Debug, Clone, Copy, PartialEq, Eq, Structural)]
pub enum TradeError {
    /// Tried to buy more than cash allows; carries how many were affordable.
    NotEnoughCash { affordable: u32 },
    /// Tried to load more than remaining hold space; carries the free space.
    NotEnoughHold { space: u32 },
    /// Tried to sell more units than are in the hold; carries the amount held.
    NotEnoughGoods { held: u32 },
}

/// Rust's truncating integer division by a positive divisor.
pub open spec fn trunc_div(a: int, b: int) -> int
    recommends
        b > 0,
{
    if a >= 0 {
        a / b
    } else {
        -((-a) / b)
    }
}

/// `v` clamped into `[low, high]`.
pub open spec fn clamp(v: int, low: int, high: int) -> int {
    if v < low {
        low
    } else if v > high {
        high
    } else {
        v
    }
}

/// A rolled base price skewed by a percent `bias` and clamped back into the good's range.
pub open spec fn biased_price(g: Good, rolled: u32, bias: i32) -> u32 {
    clamp(rolled + trunc_div(rolled * bias, 100), g.low() as int, g.high() as int) as u32
}

/// Prices of the first `n` goods rolled from state `s` under `bias`, with the state after.
pub open spec fn roll_prices(bias: Seq<i32>, s: u64, n: nat) -> (Seq<u32>, u64)
    decreases n,
{
    if n == 0 {
        (Seq::empty(), s)
    } else {
        let prev = roll_prices(bias, s, (n - 1) as nat);
        let g = good_at(n - 1);
        (
            prev.0.push(biased_price(g, range_value(prev.1, g.low(), g.high()), bias[n - 1])),
            xorshift(prev.1),
        )
    }
}

/// Current per-unit prices at the present port, by good slot. Its view is the four prices.
#[derive(Debug, Clone, Copy)]
pub struct Market {
    prices: [u32; 4],
}

impl View for Market {
    type V = Seq<u32>;

    closed spec fn view(&self) -> Seq<u32> {
        self.prices@
    }
}

impl Market {
    /// Build a market with explicit prices.
    pub fn with_prices(prices: [u32; 4]) -> (m: Market)
        ensures
            m@ == prices@,
    {
        Market { prices }
    }

    /// Roll fresh prices for every good from its base range, skew each by the percent
    /// bias for its slot, and clamp back into the range.
    pub fn generate_for(bias: [i32; 4], rng: &mut Rng) -> (m: Market)
        ensures
            m@ == roll_prices(bias@, old(rng)@, 4).0,
            final(rng)@ == roll_prices(bias@, old(rng)@, 4).1,
    {
        let mut prices = [0u32; 4];
        let mut i: usize = 0;
        while i < 4
            invariant
                i <= 4,
                prices@.len() == 4,
                forall|k: int| 0 <= k < i ==> prices@[k] == roll_prices(bias@, old(rng)@, i as nat).0[k],
                roll_prices(bias@, old(rng)@, i as nat).0.len() == i,
                rng@ == roll_prices(bias@, old(rng)@, i as nat).1,
            decreases 4 - i,
        {
            let good = Good::from_index(i);
            let (low, high) = good.price_range();
            let rolled = rng.range(low, high);
            let b = bias[i];
            let p = skew_and_clamp(rolled, b, low, high);
            prices[i] = p;
            proof {
                let prev = roll_prices(bias@, old(rng)@, i as nat);
                assert(roll_prices(bias@, old(rng)@, (i + 1) as nat).0 == prev.0.push(p));
            }
            i = i + 1;
        }
        proof {
            assert(prices@ == roll_prices(bias@, old(rng)@, 4).0);
        }
        Market { prices }
    }

    /// Roll with no bias (the classic economy).
    pub fn generate(rng: &mut Rng) -> (m: Market)
        ensures
            m@ == roll_prices(seq![0i32, 0i32, 0i32, 0i32], old(rng)@, 4).0,
            final(rng)@ == roll_prices(seq![0i32, 0i32, 0i32, 0i32], old(rng)@, 4).1,
    {
        let zero = [0i32; 4];
        assert(zero@ == seq![0i32, 0i32, 0i32, 0i32]);
        Market::generate_for(zero, rng)
    }

    /// Current price of a good.
    pub fn price(&self, good: Good) -> (p: u32)
        ensures
            p == self@[good.slot()],
    {
        self.prices[good.index()]
    }

    /// All four prices in slot order.
    pub fn prices(&self) -> (p: [u32; 4])
        ensures
            p@ == self@,
    {
        self.prices
    }

    /// Overwrite one good's price.
    pub fn set_price(&mut self, good: Good, price: u32)
        ensures
            final(self)@ == old(self)@.update(good.slot(), price),
    {
        self.prices[good.index()] = price;
    }

    pub proof fn lemma_len(&self)
        ensures
            self@.len() == 4,
    {
    }

    /// Markets with the same prices are the same market.
    pub proof fn lemma_view_eq(a: Market, b: Market)
        requires
            a@ == b@,
        ensures
            a == b,
    {
        assert(a.prices =~= b.prices);
    }
}

/// `biased_price`, computed without overflow.
fn skew_and_clamp(rolled: u32, bias: i32, low: u32, high: u32) -> (p: u32)
    requires
        low <= high,
    ensures
        p == clamp(rolled + trunc_div(rolled * bias, 100), low as int, high as int) as u32,
{
    let r: i64 = rolled as i64;
    let skewed: i64 = if bias >= 0 {
        let a: u64 = rolled as u64;
        let c: u64 = bias as u64;
        proof {
            assert(a * c <= 0xffff_ffffu64 * 0x7fff_ffffu64) by (nonlinear_arith)
                requires a <= 0xffff_ffff, c <= 0x7fff_ffff;
        }
        let m: u64 = a * c;
        proof {
            assert(m == rolled * bias);
        }
        r + (m / 100) as i64
    } else {
        let a: u64 = rolled as u64;
        let nb: u64 = (0 - (bias as i64)) as u64;
        proof {
            assert(a * nb <= 0xffff_ffffu64 * 0x8000_0000u64) by (nonlinear_arith)
                requires a <= 0xffff_ffff, nb <= 0x8000_0000;
        }
        let m: u64 = a * nb;
        proof {
            assert(m == rolled * (-bias));
            assert(rolled * bias == -(rolled * (-bias))) by (nonlinear_arith);
        }
        r - (m / 100) as i64
    };
    if skewed < low as i64 {
        low
    } else if skewed > high as i64 {
        high
    } else {
        skewed as u32
    }
}

/// Total units in a four-slot cargo list.
pub open spec fn total(u: Seq<u32>) -> int {
    u[0] + u[1] + u[2] + u[3]
}

/// The ship's cargo hold: a capacity and per-good unit counts.
#[derive(Debug, Clone, Copy)]
pub struct Hold {
    capacity: u32,
    units: [u32; 4],
}

impl Hold {
    /// The hold's capacity.
    pub closed spec fn cap(&self) -> u32 {
        self.capacity
    }

    /// Units of each good on board, by slot.
    pub closed spec fn cargo(&self) -> Seq<u32> {
        self.units@
    }

    /// The cargo fits in the capacity.
    pub open spec fn wf(&self) -> bool {
        total(self.cargo()) <= self.cap()
    }

    pub proof fn lemma_len(&self)
        ensures
            self.cargo().len() == 4,
    {
    }

    /// Holds with the same capacity and cargo are the same hold.
    pub proof fn lemma_view_eq(a: Hold, b: Hold)
        requires
            a.cap() == b.cap(),
            a.cargo() == b.cargo(),
        ensures
            a == b,
    {
        assert(a.units =~= b.units);
    }

    /// An empty hold of the given capacity.
    pub fn new(capacity: u32) -> (h: Hold)
        ensures
            h.cap() == capacity,
            h.cargo() == seq![0u32, 0u32, 0u32, 0u32],
            h.wf(),
    {
        let h = Hold { capacity, units: [0; 4] };
        assert(h.units@ == seq![0u32, 0u32, 0u32, 0u32]);
        h
    }

    /// A hold rebuilt from saved parts; the parts are taken as they are.
    pub fn from_parts(capacity: u32, units: [u32; 4]) -> (h: Hold)
        ensures
            h.cap() == capacity,
            h.cargo() == units@,
    {
        Hold { capacity, units }
    }

    pub fn capacity(&self) -> (c: u32)
        ensures
            c == self.cap(),
    {
        self.capacity
    }

    /// Per-good unit counts in slot order.
    pub fn units(&self) -> (u: [u32; 4])
        ensures
            u@ == self.cargo(),
    {
        self.units
    }

    /// Total units loaded across all goods.
    pub fn used(&self) -> (n: u32)
        requires
            total(self.cargo()) <= u32::MAX,
        ensures
            n == total(self.cargo()),
    {
        self.units[0] + self.units[1] + self.units[2] + self.units[3]
    }

    /// Free space remaining.
    pub fn free(&self) -> (n: u32)
        requires
            self.wf(),
        ensures
            n == self.cap() - total(self.cargo()),
    {
        self.capacity - self.used()
    }

    /// Units of one good on board.
    pub fn quantity(&self, good: Good) -> (n: u32)
        ensures
            n == self.cargo()[good.slot()],
    {
        self.units[good.index()]
    }

    /// Increase the capacity.
    pub fn expand(&mut self, extra: u32)
        requires
            old(self).cap() + extra <= u32::MAX,
        ensures
            final(self).cap() == old(self).cap() + extra,
            final(self).cargo() == old(self).cargo(),
    {
        self.capacity = self.capacity + extra;
    }

    /// Remove up to `n` units of a good without payment; returns how many left.
    pub fn jettison(&mut self, good: Good, n: u32) -> (removed: u32)
        ensures
            removed == (if n <= old(self).cargo()[good.slot()] { n } else { old(self).cargo()[good.slot()] }),
            final(self).cap() == old(self).cap(),
            final(self).cargo() == old(self).cargo().update(
                good.slot(),
                (old(self).cargo()[good.slot()] - removed) as u32,
            ),
    {
        let i = good.index();
        let held = self.units[i];
        let removed = if n <= held { n } else { held };
        self.units[i] = held - removed;
        removed
    }

    /// Load `qty` more units of a good.
    fn load(&mut self, good: Good, qty: u32)
        requires
            old(self).cargo()[good.slot()] + qty <= u32::MAX,
        ensures
            final(self).cap() == old(self).cap(),
            final(self).cargo() == old(self).cargo().update(
                good.slot(),
                (old(self).cargo()[good.slot()] + qty) as u32,
            ),
    {
        let i = good.index();
        self.units[i] = self.units[i] + qty;
    }
}

/// How many units `cash` affords at `price`; a free good is affordable without limit.
pub open spec fn affordable(cash: u32, price: u32, qty: u32) -> u32 {
    if price == 0 {
        qty
    } else {
        cash / price
    }
}

/// What `buy` returns, given the market price, the cash and the hold before the call.
pub open spec fn buy_result(price: u32, cash: u32, hold: Hold, qty: u32) -> Result<u32, TradeError> {
    if qty > affordable(cash, price, qty) {
        Err(TradeError::NotEnoughCash { affordable: affordable(cash, price, qty) })
    } else if qty > hold.cap() - total(hold.cargo()) {
        Err(TradeError::NotEnoughHold { space: (hold.cap() - total(hold.cargo())) as u32 })
    } else {
        Ok((price * qty) as u32)
    }
}

/// Buy `qty` units of `good` at the market price. On success the cost leaves `cash` and
/// the units enter the hold; on failure nothing changes.
pub fn buy(market: &Market, hold: &mut Hold, cash: &mut u32, good: Good, qty: u32) -> (r: Result<
    u32,
    TradeError,
>)
    requires
        old(hold).wf() || qty > affordable(*old(cash), market@[good.slot()], qty),
    ensures
        r == buy_result(market@[good.slot()], *old(cash), *old(hold), qty),
        final(hold).cap() == old(hold).cap(),
        old(hold).wf() ==> final(hold).wf(),
        match r {
            Ok(cost) => {
                &&& *final(cash) == *old(cash) - cost
                &&& final(hold).cargo() == old(hold).cargo().update(
                    good.slot(),
                    (old(hold).cargo()[good.slot()] + qty) as u32,
                )
            },
            Err(_) => *final(cash) == *old(cash) && final(hold).cargo() == old(hold).cargo(),
        },
{
    proof {
        hold.lemma_len();
    }
    let price = market.price(good);
    let affordable: u32 = if price == 0 { qty } else { *cash / price };
    if qty > affordable {
        return Err(TradeError::NotEnoughCash { affordable });
    }
    let space = hold.free();
    if qty > space {
        return Err(TradeError::NotEnoughHold { space });
    }
    proof {
        if price > 0 {
            assert(price * qty <= price * (*cash / price)) by (nonlinear_arith)
                requires qty <= *cash / price, price > 0;
            assert(price * (*cash / price) <= *cash) by (nonlinear_arith)
                requires price > 0;
        }
    }
    let cost = price * qty;
    *cash = *cash - cost;
    hold.load(good, qty);
    proof {
        let c = old(hold).cargo();
        let d = hold.cargo();
        assert(total(d) == total(c) + qty);
    }
    Ok(cost)
}

/// What `sell` returns, given the market price and the hold before the call. Proceeds
/// beyond `u32::MAX` are pinned there.
pub open spec fn sell_result(price: u32, hold: Hold, good: Good, qty: u32) -> Result<u32, TradeError> {
    if qty > hold.cargo()[good.slot()] {
        Err(TradeError::NotEnoughGoods { held: hold.cargo()[good.slot()] })
    } else if price * qty > u32::MAX {
        Ok(u32::MAX)
    } else {
        Ok((price * qty) as u32)
    }
}

/// Sell `qty` units of `good` at the market price. On success the proceeds join `cash`
/// (pinned at `u32::MAX`) and the units leave the hold; on failure nothing changes.
pub fn sell(market: &Market, hold: &mut Hold, cash: &mut u32, good: Good, qty: u32) -> (r: Result<
    u32,
    TradeError,
>)
    ensures
        r == sell_result(market@[good.slot()], *old(hold), good, qty),
        final(hold).cap() == old(hold).cap(),
        match r {
            Ok(proceeds) => {
                &&& *final(cash) == (if *old(cash) + proceeds > u32::MAX { u32::MAX as int } else {
                    *old(cash) + proceeds
                })
                &&& final(hold).cargo() == old(hold).cargo().update(
                    good.slot(),
                    (old(hold).cargo()[good.slot()] - qty) as u32,
                )
            },
            Err(_) => *final(cash) == *old(cash) && final(hold).cargo() == old(hold).cargo(),
        },
        old(hold).wf() ==> final(hold).wf(),
{
    proof {
        hold.lemma_len();
    }
    let held = hold.quantity(good);
    if qty > held {
        return Err(TradeError::NotEnoughGoods { held });
    }
    let price = market.price(good);
    let proceeds: u32 = match price.checked_mul(qty) {
        Some(p) => p,
        None => u32::MAX,
    };
    *cash = cash.saturating_add(proceeds);
    let removed = hold.jettison(good, qty);
    assert(removed == qty);
    Ok(proceeds)
}

/// Every rolled price lies in its good's base range, whatever the bias: a heavy bias
/// is clamped back into the range.
pub proof fn law_prices_in_range(bias: Seq<i32>, s: u64, n: nat, i: int)
    requires
        0 <= i < n,
    ensures
        roll_prices(bias, s, n).0.len() == n,
        good_at(i).low() <= roll_prices(bias, s, n).0[i] <= good_at(i).high(),
    decreases n,
{
    if i < n - 1 {
        law_prices_in_range(bias, s, (n - 1) as nat, i);
    }
    lemma_rolled_len(bias, s, n);
}

/// `roll_prices` rolls `n` prices.
proof fn lemma_rolled_len(bias: Seq<i32>, s: u64, n: nat)
    ensures
        roll_prices(bias, s, n).0.len() == n,
    decreases n,
{
    if n > 0 {
        lemma_rolled_len(bias, s, (n - 1) as nat);
    }
}

/// The bias is applied after the draws: any two biases draw the same random numbers
/// and leave the generator in the same state.
pub proof fn law_bias_keeps_draws(a: Seq<i32>, b: Seq<i32>, s: u64, n: nat)
    ensures
        roll_prices(a, s, n).1 == roll_prices(b, s, n).1,
    decreases n,
{
    if n > 0 {
        law_bias_keeps_draws(a, b, s, (n - 1) as nat);
    }
}

/// With no bias, each price is the plain draw from its good's base range.
pub proof fn law_zero_bias_is_plain(s: u64, n: nat, i: int)
    requires
        0 <= i < n,
        n <= 4,
    ensures
        roll_prices(seq![0i32, 0i32, 0i32, 0i32], s, n).0[i] == range_value(
            roll_prices(seq![0i32, 0i32, 0i32, 0i32], s, i as nat).1,
            good_at(i).low(),
            good_at(i).high(),
        ),
    decreases n,
{
    let z = seq![0i32, 0i32, 0i32, 0i32];
    lemma_rolled_len(z, s, (n - 1) as nat);
    if i < n - 1 {
        law_zero_bias_is_plain(s, (n - 1) as nat, i);
    } else {
        let prev = roll_prices(z, s, (n - 1) as nat);
        let g = good_at(n - 1);
        let r = range_value(prev.1, g.low(), g.high());
        assert(z[n - 1] == 0);
        assert(trunc_div(r * 0, 100) == 0);
    }
}


/// A larger bias never gives a lower price, whatever the draw.
proof fn lemma_biased_price_monotone(g: Good, r: u32, x: i32, y: i32)
    requires
        x <= y,
    ensures
        biased_price(g, r, x) <= biased_price(g, r, y),
{
    let p = r * x;
    let q = r * y;
    assert(p <= q) by (nonlinear_arith)
        requires p == r * x, q == r * y, x <= y, r >= 0;
    assert(trunc_div(p, 100) <= trunc_div(q, 100)) by {
        if p >= 0 {
            vstd::arithmetic::div_mod::lemma_div_is_ordered(p, q, 100);
        } else if q >= 0 {
            vstd::arithmetic::div_mod::lemma_div_pos_is_pos(q, 100);
            vstd::arithmetic::div_mod::lemma_div_pos_is_pos(-p, 100);
        } else {
            vstd::arithmetic::div_mod::lemma_div_is_ordered(-q, -p, 100);
        }
    }
}

/// Raising the bias on any good never lowers its price: prices rolled from one state
/// under a bias no larger, good by good, are no larger.
pub proof fn law_more_bias_never_cheaper(a: Seq<i32>, b: Seq<i32>, s: u64, n: nat, i: int)
    requires
        0 <= i < n,
        a[i] <= b[i],
    ensures
        roll_prices(a, s, n).0[i] <= roll_prices(b, s, n).0[i],
    decreases n,
{
    lemma_rolled_len(a, s, (n - 1) as nat);
    lemma_rolled_len(b, s, (n - 1) as nat);
    if i < n - 1 {
        law_more_bias_never_cheaper(a, b, s, (n - 1) as nat, i);
    } else {
        law_bias_keeps_draws(a, b, s, (n - 1) as nat);
        let st = roll_prices(a, s, (n - 1) as nat).1;
        let g = good_at(n - 1);
        lemma_biased_price_monotone(g, range_value(st, g.low(), g.high()), a[i], b[i]);
    }
}


/// Each price is its good's draw skewed by the good's percent bias, the skew rounded
/// toward zero, then held within the good's range: a bias of -40 makes a draw of 1499
/// 40% cheaper (900), one of +25 makes it a quarter dearer.
pub proof fn law_bias_skews_the_draw(bias: Seq<i32>, s: u64, n: nat, i: int)
    requires
        0 <= i < n,
    ensures
        ({
            let g = good_at(i);
            let r = range_value(roll_prices(bias, s, i as nat).1, g.low(), g.high());
            let q = r * bias[i];
            let v = r + (if q >= 0 { q / 100 } else { -((-q) / 100) });
            roll_prices(bias, s, n).0[i] == (if v < g.low() { g.low() as int } else if v > g.high() {
                g.high() as int
            } else {
                v
            })
        }),
    decreases n,
{
    lemma_rolled_len(bias, s, (n - 1) as nat);
    if i < n - 1 {
        law_bias_skews_the_draw(bias, s, (n - 1) as nat, i);
    }
}

/// A negative bias never raises a price above its draw and a positive one never lowers
/// it below; a negative bias whose skew reaches a whole unit makes the price strictly
/// cheaper than the draw unless the good's floor stops it.
pub proof fn law_bias_direction(bias: Seq<i32>, s: u64, n: nat, i: int)
    requires
        0 <= i < n,
    ensures
        ({
            let g = good_at(i);
            let r = range_value(roll_prices(bias, s, i as nat).1, g.low(), g.high());
            let p = roll_prices(bias, s, n).0[i];
            &&& bias[i] <= 0 ==> p <= r
            &&& bias[i] >= 0 ==> p >= r
            &&& bias[i] < 0 && r * (-bias[i]) >= 100 ==> p < r || p == g.low()
        }),
{
    law_bias_skews_the_draw(bias, s, n, i);
    let g = good_at(i);
    let st = roll_prices(bias, s, i as nat).1;
    let r = range_value(st, g.low(), g.high());
    assert(g.low() <= r <= g.high()) by {
        let x = draw(st) as int % ((g.high() - g.low()) + 1);
        assert(0 <= x <= g.high() - g.low()) by {
            assert(g.high() - g.low() + 1 > 0);
        }
    }
    let b = bias[i];
    let q = r * b;
    if q >= 0 {
        assert(q / 100 >= 0);
    } else {
        assert((-q) / 100 >= 0);
    }
    if b < 0 && r * (-b) >= 100 {
        assert(-q == r * (-b)) by (nonlinear_arith)
            requires q == r * b;
        assert((-q) / 100 >= 1);
    }
    if b <= 0 {
        assert(q <= 0) by (nonlinear_arith)
            requires q == r * b, b <= 0, r >= 0;
    }
    if b >= 0 {
        assert(q >= 0) by (nonlinear_arith)
            requires q == r * b, b >= 0, r >= 0;
    }
}

} // verus!
