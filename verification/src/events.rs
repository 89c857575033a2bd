//! Random events that greet the ship on arrival at a port.

use vstd::prelude::*;
use crate::combat::{Battle, ENEMY_HP, encounter_size};
use crate::game::{Game, min_int};
use crate::market::{Good, good_at};
use crate::rng::{Rng, chance_value, draw, range_value, xorshift};

verus! {

/// Something that happened on arrival.
#[derive(Debug, Clone)]
pub enum Event {
    /// Nothing notable.
    Quiet,
    /// A good's price spiked upward to `new_price`.
    PriceSpike { good: Good, new_price: u32 },
    /// A good's price crashed downward to `new_price`.
    PriceDrop { good: Good, new_price: u32 },
    /// Li Yuen's pirates demanded tribute; `taken` left the purse.
    LiYuenExtortion { taken: u32 },
    /// Hostile pirates attack; the battle must be resolved.
    Pirates(Battle),
}

/// Li Yuen's cut of `cash` at `pct` percent: at least one coin.
pub open spec fn tribute(cash: u32, pct: u32) -> u32 {
    let t = cash * pct / 100;
    if t < 1 {
        1
    } else {
        t as u32
    }
}

/// A price multiplied by a spike factor, pinned at `u32::MAX`.
pub open spec fn spiked(price: u32, mult: u32) -> u32 {
    if price * mult > u32::MAX {
        u32::MAX
    } else {
        (price * mult) as u32
    }
}

/// A price divided by a crash divisor, floored at one.
pub open spec fn crashed(price: u32, div: u32) -> u32 {
    if price / div < 1 {
        1
    } else {
        (price / div) as u32
    }
}

/// An arrival roll from game `g` and state `s` gives game `g2`, state `s2` and event
/// `e`. Each branch is checked in turn, the first hit wins: 1 in 6 pirates; 1 in 8 Li
/// Yuen takes 10–30% of the cash (only when there is cash, and only then is the roll
/// made); 1 in 5 a random good's price spikes 2–4×; 1 in 5 one crashes to a half or a
/// third; otherwise quiet.
pub open spec fn rolled(g: Game, s: u64, g2: Game, s2: u64, e: Event) -> bool {
    let s1 = xorshift(s);
    if chance_value(s, 1, 6) {
        &&& g2 == g
        &&& s2 == xorshift(s1)
        &&& e matches Event::Pirates(b)
        &&& b.ships() == Seq::new(encounter_size(s1, g.guns) as nat, |i: int| ENEMY_HP)
        &&& b.tally() == 0
    } else if g.cash > 0 && chance_value(s1, 1, 8) {
        let s2a = xorshift(s1);
        let taken = tribute(g.cash, range_value(s2a, 10, 30));
        &&& g2 == Game { cash: (g.cash - taken) as u32, ..g }
        &&& s2 == xorshift(s2a)
        &&& e == Event::LiYuenExtortion { taken }
    } else {
        let t = if g.cash > 0 { xorshift(s1) } else { s1 };
        let t1 = xorshift(t);
        let t2 = xorshift(t1);
        if chance_value(t, 1, 5) {
            let good = good_at(range_value(t1, 0, 3) as int);
            let p = spiked(g.market@[good.slot()], range_value(t2, 2, 4));
            &&& g2.market@ == g.market@.update(good.slot(), p)
            &&& g2 == Game { market: g2.market, ..g }
            &&& s2 == xorshift(t2)
            &&& e == Event::PriceSpike { good, new_price: p }
        } else if chance_value(t1, 1, 5) {
            let t3 = xorshift(t2);
            let good = good_at(range_value(t2, 0, 3) as int);
            let p = crashed(g.market@[good.slot()], range_value(t3, 2, 3));
            &&& g2.market@ == g.market@.update(good.slot(), p)
            &&& g2 == Game { market: g2.market, ..g }
            &&& s2 == xorshift(t3)
            &&& e == Event::PriceDrop { good, new_price: p }
        } else {
            &&& g2 == g
            &&& s2 == t2
            &&& e == Event::Quiet
        }
    }
}

/// A random good.
fn random_good(rng: &mut Rng) -> (g: Good)
    ensures
        g == good_at(range_value(old(rng)@, 0, 3) as int),
        final(rng)@ == xorshift(old(rng)@),
{
    let i = rng.range(0, 3);
    Good::from_index(i as usize)
}

/// Roll for an arrival event and apply its immediate effects.
pub fn roll(game: &mut Game, rng: &mut Rng) -> (e: Event)
    ensures
        rolled(*old(game), old(rng)@, *final(game), final(rng)@, e),
{
    if rng.chance(1, 6) {
        return Event::Pirates(Battle::roll_encounter(rng, game.guns));
    }
    if game.cash > 0 && rng.chance(1, 8) {
        let pct = rng.range(10, 30);
        let c: u64 = game.cash as u64;
        let q: u64 = pct as u64;
        proof {
            assert(c * q <= 0xffff_ffffu64 * 30) by (nonlinear_arith)
                requires c <= 0xffff_ffff, q <= 30;
            assert(c * q / 100 <= c) by (nonlinear_arith)
                requires q <= 30;
        }
        let t: u64 = c * q / 100;
        let taken: u32 = if t < 1 { 1 } else { t as u32 };
        game.cash = game.cash - taken;
        return Event::LiYuenExtortion { taken };
    }
    if rng.chance(1, 5) {
        let good = random_good(rng);
        let mult = rng.range(2, 4);
        let price = game.market.price(good);
        let new_price = match price.checked_mul(mult) {
            Some(p) => p,
            None => u32::MAX,
        };
        game.market.set_price(good, new_price);
        return Event::PriceSpike { good, new_price };
    }
    if rng.chance(1, 5) {
        let good = random_good(rng);
        let div = rng.range(2, 3);
        let q = game.market.price(good) / div;
        let new_price = if q < 1 { 1 } else { q };
        game.market.set_price(good, new_price);
        return Event::PriceDrop { good, new_price };
    }
    Event::Quiet
}

/// Whether two events are the same, a battle judged by its ships and tally.
pub open spec fn same_event(e: Event, f: Event) -> bool {
    match (e, f) {
        (Event::Pirates(a), Event::Pirates(b)) => a.ships() == b.ships() && a.tally() == b.tally(),
        (Event::Pirates(_), _) => false,
        (_, Event::Pirates(_)) => false,
        _ => e == f,
    }
}

/// An arrival roll is determined by the game and the generator state: two rolls from
/// the same game and state give the same game, state and event.
pub proof fn law_roll_determined(
    g: Game,
    s: u64,
    g2: Game,
    s2: u64,
    e: Event,
    h2: Game,
    t2: u64,
    f: Event,
)
    requires
        rolled(g, s, g2, s2, e),
        rolled(g, s, h2, t2, f),
    ensures
        g2 == h2,
        s2 == t2,
        same_event(e, f),
{
    crate::market::Market::lemma_view_eq(g2.market, h2.market);
}

/// Li Yuen never extorts a trader with no cash.
pub proof fn law_broke_is_never_extorted(g: Game, s: u64, g2: Game, s2: u64, e: Event)
    requires
        rolled(g, s, g2, s2, e),
        g.cash == 0,
    ensures
        !(e is LiYuenExtortion),
{
}

/// A value drawn from `[low, high]` lies in it.
proof fn lemma_range_bounds(s: u64, low: u32, high: u32)
    requires
        low <= high,
    ensures
        low <= range_value(s, low, high) <= high,
{
}

/// A spike by a factor of at least one never lowers a price.
proof fn lemma_spiked(p: u32, m: u32)
    requires
        m >= 1,
    ensures
        spiked(p, m) >= p,
{
    assert(p * m >= p) by (nonlinear_arith)
        requires
            m >= 1,
    ;
}

/// A crash never drops a price below one, and never raises a price of one or more.
proof fn lemma_crashed(p: u32, d: u32)
    requires
        d >= 1,
    ensures
        crashed(p, d) >= 1,
        p >= 1 ==> crashed(p, d) <= p,
{
    assert(p / d <= p) by (nonlinear_arith)
        requires
            d >= 1,
    ;
}

/// A price spike never lowers a price and a crash never raises one (nor drops it below
/// one); the market then holds the reported price.
pub proof fn law_spikes_raise_drops_lower(g: Game, s: u64, g2: Game, s2: u64, e: Event)
    requires
        rolled(g, s, g2, s2, e),
    ensures
        e matches Event::PriceSpike { good, new_price } ==> new_price >= g.market@[good.slot()]
            && g2.market@[good.slot()] == new_price,
        e matches Event::PriceDrop { good, new_price } ==> 1 <= new_price && (g.market@[good.slot()] >= 1
            ==> new_price <= g.market@[good.slot()]) && g2.market@[good.slot()] == new_price,
{
    g.market.lemma_len();
    let s1 = xorshift(s);
    if !chance_value(s, 1, 6) && !(g.cash > 0 && chance_value(s1, 1, 8)) {
        let t = if g.cash > 0 { xorshift(s1) } else { s1 };
        let t1 = xorshift(t);
        let t2 = xorshift(t1);
        if chance_value(t, 1, 5) {
            let good = good_at(range_value(t1, 0, 3) as int);
            lemma_range_bounds(t2, 2, 4);
            lemma_spiked(g.market@[good.slot()], range_value(t2, 2, 4));
        } else if chance_value(t1, 1, 5) {
            let t3 = xorshift(t2);
            let good = good_at(range_value(t2, 0, 3) as int);
            lemma_range_bounds(t3, 2, 3);
            lemma_crashed(g.market@[good.slot()], range_value(t3, 2, 3));
        }
    }
}


/// Li Yuen's tribute at 10–30 percent lies between a tenth and three tenths of the
/// purse, is at least one coin, and never more than the purse.
proof fn lemma_tribute_bounds(cash: u32, pct: u32)
    requires
        cash > 0,
        10 <= pct <= 30,
    ensures
        max_int(1, (cash / 10) as int) <= tribute(cash, pct) <= max_int(1, cash * 3 / 10),
        tribute(cash, pct) <= cash,
{
    let lo = cash * 10 / 100;
    let t = cash * pct / 100;
    let hi = cash * 30 / 100;
    assert(cash * 10 <= cash * pct <= cash * 30) by (nonlinear_arith)
        requires 10 <= pct <= 30, cash >= 0;
    vstd::arithmetic::div_mod::lemma_div_is_ordered(cash * 10, cash * pct as int, 100);
    vstd::arithmetic::div_mod::lemma_div_is_ordered(cash * pct as int, cash * 30, 100);
    assert(lo == cash / 10) by (nonlinear_arith)
        requires lo == cash * 10 / 100, cash >= 0;
    assert(hi == cash * 3 / 10) by (nonlinear_arith)
        requires hi == cash * 30 / 100, cash >= 0;
    assert(hi <= cash) by (nonlinear_arith)
        requires hi == cash * 30 / 100, cash >= 0;
}

/// The larger of two integers.
pub open spec fn max_int(a: int, b: int) -> int {
    if a >= b { a } else { b }
}

/// What an arrival does to the purse: pirates and quiet days leave the game as it was;
/// Li Yuen comes only to a ship with cash and takes between a tenth and three tenths of
/// it (at least one coin, never more than there is), and nothing else.
pub proof fn law_arrival_purse(g: Game, s: u64, g2: Game, s2: u64, e: Event)
    requires
        rolled(g, s, g2, s2, e),
    ensures
        e is Pirates ==> g2 == g,
        e is Quiet ==> g2 == g,
        (e matches Event::LiYuenExtortion { taken } ==> {
            &&& g.cash > 0
            &&& max_int(1, (g.cash / 10) as int) <= taken <= max_int(1, g.cash * 3 / 10)
            &&& taken <= g.cash
            &&& g2 == Game { cash: (g.cash - taken) as u32, ..g }
        }),
{
    if e is LiYuenExtortion {
        let s1 = xorshift(s);
        let s2a = xorshift(s1);
        lemma_range_bounds(s2a, 10, 30);
        lemma_tribute_bounds(g.cash, range_value(s2a, 10, 30));
    }
}


/// A spike multiplies a price by two to four (pinned at `u32::MAX`); a crash divides it
/// by two or three (never below one). Either moves only the price of the good it names,
/// and nothing else in the game changes.
pub proof fn law_price_moves(g: Game, s: u64, g2: Game, s2: u64, e: Event)
    requires
        rolled(g, s, g2, s2, e),
    ensures
        (e matches Event::PriceSpike { good, new_price } ==> exists|m: int|
            2 <= m <= 4 && #[trigger] min_int(g.market@[good.slot()] * m, u32::MAX as int) == new_price),
        (e matches Event::PriceDrop { good, new_price } ==> exists|d: int|
            2 <= d <= 3 && #[trigger] max_int(1, (g.market@[good.slot()] as int) / d) == new_price),
        (e matches Event::PriceSpike { good, new_price } ==> forall|j: int|
            0 <= j < 4 && j != good.slot() ==> #[trigger] g2.market@[j] == g.market@[j]),
        (e matches Event::PriceDrop { good, new_price } ==> forall|j: int|
            0 <= j < 4 && j != good.slot() ==> #[trigger] g2.market@[j] == g.market@[j]),
        (e is PriceSpike || e is PriceDrop) ==> g2.cash == g.cash && g2.debt == g.debt && g2.bank == g.bank
            && g2.hold == g.hold && g2.location == g.location && g2.guns == g.guns && g2.health == g.health,
{
    g.market.lemma_len();
    let s1 = xorshift(s);
    if !chance_value(s, 1, 6) && !(g.cash > 0 && chance_value(s1, 1, 8)) {
        let t = if g.cash > 0 { xorshift(s1) } else { s1 };
        let t1 = xorshift(t);
        let t2 = xorshift(t1);
        if chance_value(t, 1, 5) {
            let good = good_at(range_value(t1, 0, 3) as int);
            let m = range_value(t2, 2, 4);
            lemma_range_bounds(t2, 2, 4);
            assert(min_int(g.market@[good.slot()] * (m as int), u32::MAX as int) == spiked(g.market@[good.slot()], m));
        } else if chance_value(t1, 1, 5) {
            let t3 = xorshift(t2);
            let good = good_at(range_value(t2, 0, 3) as int);
            let d = range_value(t3, 2, 3);
            lemma_range_bounds(t3, 2, 3);
            assert(max_int(1, (g.market@[good.slot()] as int) / (d as int)) == crashed(g.market@[good.slot()], d));
        }
    }
}


/// Which event an arrival meets, read off the draws: pirates when the first draw is a
/// multiple of 6 (odds of 1 in 6), in a pack of one to four ships plus one per four guns
/// (at most four more, at most eight in all); otherwise Li Yuen, when there is cash and
/// the next draw is a multiple of 8 (1 in 8).
pub proof fn law_which_event(g: Game, s: u64, g2: Game, s2: u64, e: Event)
    requires
        rolled(g, s, g2, s2, e),
    ensures
        (draw(s) % 6 == 0) == (e is Pirates),
        (e matches Event::Pirates(b) ==> {
            let bonus = min_int((g.guns / 4) as int, 4);
            &&& min_int(1 + bonus, 8) <= b.ships().len() <= min_int(4 + bonus, 8)
            &&& b.tally() == 0
        }),
        draw(s) % 6 != 0 ==> (e is LiYuenExtortion <==> g.cash > 0 && draw(xorshift(s)) % 8 == 0),
{
    let s1 = xorshift(s);
    lemma_range_bounds(s1, 1, 4);
}

} // verus!
