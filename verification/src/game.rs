//! The mutable game world and the rules that tie the modules together.

use vstd::prelude::*;
use crate::economy::{EconomyMode, bias_row, biases_for};
use crate::market::{self, Good, Hold, Market, TradeError, affordable, buy_result, sell_result, roll_prices, total};
use crate::rng::Rng;
use crate::travel::Port;

verus! {

/// Starting cash handed over by Elder Brother Wu.
pub const START_CASH: u32 = 400;
/// Starting debt owed to him.
pub const START_DEBT: u32 = 5_000;
/// Initial hold capacity.
pub const START_HOLD: u32 = 60;
/// Starting cannon count.
pub const START_GUNS: u32 = 5;
/// Full ship health.
pub const MAX_HEALTH: u32 = 100;
/// Net worth needed to retire a winner.
pub const WIN_TARGET: u64 = 1_000_000;
/// Debt interest per port arrival, in percent.
pub const DEBT_INTEREST_PERCENT: u32 = 10;
/// Bank interest per port arrival, in percent: a whole 1% of each hundred, the rate the
/// game's tests fix (not the 0.5% of the 1982 game's `BA * 1.005`, which whole percents
/// cannot express).
pub const BANK_INTEREST_PERCENT: u32 = 1;
/// Cash price of one cannon at the shipyard.
pub const GUN_PRICE: u32 = 500;
/// Hold units each cannon takes up.
pub const GUN_SPACE: u32 = 10;
/// Cash price of one unit of extra hold capacity.
pub const HOLD_UNIT_PRICE: u32 = 100;
/// Cash price of one point of hull repair.
pub const REPAIR_POINT_PRICE: u32 = 10;

/// Why the game ended, if it has.
#[derive(Debug, Clone, Copy, PartialEq, Eq, Structural)]
pub enum Outcome {
    /// Reached the net-worth target and retired.
    Won,
    /// The ship was sunk.
    ShipDestroyed,
}

/// Why a cannon purchase was refused.
#[derive(Debug, Clone, Copy, PartialEq, Eq, Structural)]
pub enum ShipyardError {
    /// Not enough cash; carries how many cannons the cash covers.
    NotEnoughCash { affordable: u32 },
    /// Not enough free hold space; carries how many cannons would fit.
    NotEnoughHold { room: u32 },
}

/// The whole mutable game world.
#[derive(Debug, Clone, Copy)]
pub struct Game {
    pub cash: u32,
    pub bank: u64,
    pub debt: u64,
    pub location: Port,
    pub hold: Hold,
    pub warehouse: [u32; 4],
    pub guns: u32,
    pub health: u32,
    pub market: Market,
    pub outcome: Option<Outcome>,
    /// The economy model, set once at construction.
    pub mode: EconomyMode,
}

/// Market value of the cargo `units` at `prices`.
pub open spec fn cargo_value(units: Seq<u32>, prices: Seq<u32>) -> int {
    units[0] * prices[0] + units[1] * prices[1] + units[2] * prices[2] + units[3] * prices[3]
}

/// The smaller of two integers.
pub open spec fn min_int(a: int, b: int) -> int {
    if a <= b {
        a
    } else {
        b
    }
}

/// `a + b` pinned at `cap`.
pub open spec fn sat_add(a: int, b: int, cap: int) -> int {
    if a + b > cap {
        cap
    } else {
        a + b
    }
}

impl Game {
    /// Cash + bank + cargo at current prices, less debt: floored at zero, pinned at
    /// `u64::MAX`.
    pub open spec fn worth(&self) -> int {
        let v = self.cash + self.bank + cargo_value(self.hold.cargo(), self.market@) - self.debt;
        if v < 0 {
            0
        } else if v > u64::MAX {
            u64::MAX as int
        } else {
            v
        }
    }

    /// The hold's cargo fits in its capacity.
    pub open spec fn wf(&self) -> bool {
        self.hold.wf()
    }

    /// `a` and `b` agree on everything but money and cargo.
    pub open spec fn same_ship(a: Game, b: Game) -> bool {
        &&& a.location == b.location
        &&& a.warehouse == b.warehouse
        &&& a.guns == b.guns
        &&& a.health == b.health
        &&& a.market == b.market
        &&& a.outcome == b.outcome
        &&& a.mode == b.mode
    }

    /// What `buy` does: from `g` to `g2`, returning `r`.
    pub open spec fn bought(g: Game, good: Good, qty: u32, g2: Game, r: Result<u32, TradeError>) -> bool {
        &&& r == buy_result(g.market@[good.slot()], g.cash, g.hold, qty)
        &&& g.wf() ==> g2.wf()
        &&& Game::same_ship(g, g2)
        &&& g2.bank == g.bank
        &&& g2.debt == g.debt
        &&& g2.hold.cap() == g.hold.cap()
        &&& match r {
            Ok(cost) => {
                &&& g2.cash == g.cash - cost
                &&& g2.hold.cargo() == g.hold.cargo().update(
                    good.slot(),
                    (g.hold.cargo()[good.slot()] + qty) as u32,
                )
            },
            Err(_) => g2.cash == g.cash && g2.hold.cargo() == g.hold.cargo(),
        }
    }

    /// What `sell` does: from `g` to `g2`, returning `r`.
    pub open spec fn sold(g: Game, good: Good, qty: u32, g2: Game, r: Result<u32, TradeError>) -> bool {
        &&& r == sell_result(g.market@[good.slot()], g.hold, good, qty)
        &&& g.wf() ==> g2.wf()
        &&& Game::same_ship(g, g2)
        &&& g2.bank == g.bank
        &&& g2.debt == g.debt
        &&& g2.hold.cap() == g.hold.cap()
        &&& match r {
            Ok(proceeds) => {
                &&& g2.cash == sat_add(g.cash as int, proceeds as int, u32::MAX as int)
                &&& g2.hold.cargo() == g.hold.cargo().update(
                    good.slot(),
                    (g.hold.cargo()[good.slot()] - qty) as u32,
                )
            },
            Err(_) => g2.cash == g.cash && g2.hold.cargo() == g.hold.cargo(),
        }
    }

    /// What `deposit` does: from `g` to `g2`, returning `moved`.
    pub open spec fn deposited(g: Game, amount: u32, g2: Game, moved: u32) -> bool {
        &&& moved == min_int(min_int(amount as int, g.cash as int), u64::MAX - g.bank)
        &&& g2.cash == g.cash - moved
        &&& g2.bank == g.bank + moved
        &&& g2.debt == g.debt
        &&& g2.hold == g.hold
        &&& Game::same_ship(g, g2)
    }

    /// What `withdraw` does: from `g` to `g2`, returning `moved`.
    pub open spec fn withdrew(g: Game, amount: u64, g2: Game, moved: u64) -> bool {
        &&& moved == min_int(min_int(amount as int, g.bank as int), u32::MAX - g.cash)
        &&& g2.cash == g.cash + moved
        &&& g2.bank == g.bank - moved
        &&& g2.debt == g.debt
        &&& g2.hold == g.hold
        &&& Game::same_ship(g, g2)
    }

    /// What `pay_debt` does: from `g` to `g2`, returning `paid`.
    pub open spec fn paid_down(g: Game, amount: u32, g2: Game, paid: u32) -> bool {
        &&& paid == min_int(min_int(amount as int, g.debt as int), g.cash as int)
        &&& g2.cash == g.cash - paid
        &&& g2.debt == g.debt - paid
        &&& g2.bank == g.bank
        &&& g2.hold == g.hold
        &&& Game::same_ship(g, g2)
    }

    /// How much a loan of `amount` actually lends: no more than the cash or the debt
    /// can still hold.
    pub open spec fn lent(g: Game, amount: u32) -> int {
        min_int(min_int(amount as int, u32::MAX - g.cash), u64::MAX - g.debt)
    }

    /// What `borrow` does: from `g` to `g2`. Cash and debt rise by the same sum.
    pub open spec fn borrowed(g: Game, amount: u32, g2: Game) -> bool {
        &&& g2.cash == g.cash + Game::lent(g, amount)
        &&& g2.debt == g.debt + Game::lent(g, amount)
        &&& g2.bank == g.bank
        &&& g2.hold == g.hold
        &&& Game::same_ship(g, g2)
    }

    /// What `retire` does: from `g` to `g2`.
    pub open spec fn retired(g: Game, g2: Game) -> bool {
        &&& g2.outcome == Some(Outcome::Won)
        &&& g2.cash == g.cash
        &&& g2.bank == g.bank
        &&& g2.debt == g.debt
        &&& g2.hold == g.hold
        &&& g2.location == g.location
        &&& g2.warehouse == g.warehouse
        &&& g2.guns == g.guns
        &&& g2.health == g.health
        &&& g2.market == g.market
        &&& g2.mode == g.mode
    }

    /// What `store` does: from `g` to `g2`, returning `moved`.
    pub open spec fn stored(g: Game, good: Good, qty: u32, g2: Game, moved: u32) -> bool {
        &&& moved == min_int(
            min_int(qty as int, g.hold.cargo()[good.slot()] as int),
            u32::MAX - g.warehouse@[good.slot()],
        )
        &&& g2.hold.cap() == g.hold.cap()
        &&& g2.hold.cargo() == g.hold.cargo().update(
            good.slot(),
            (g.hold.cargo()[good.slot()] - moved) as u32,
        )
        &&& g2.warehouse@ == g.warehouse@.update(
            good.slot(),
            (g.warehouse@[good.slot()] + moved) as u32,
        )
        &&& g.wf() ==> g2.wf()
        &&& g2.cash == g.cash
        &&& g2.bank == g.bank
        &&& g2.debt == g.debt
        &&& g2.location == g.location
        &&& g2.guns == g.guns
        &&& g2.health == g.health
        &&& g2.market == g.market
        &&& g2.outcome == g.outcome
        &&& g2.mode == g.mode
    }

    /// What `buy_guns` does: from `g` to `g2`, returning `r`.
    pub open spec fn armed(g: Game, qty: u32, g2: Game, r: Result<u32, ShipyardError>) -> bool {
        &&& r == gun_purchase(g.cash, (g.hold.cap() - total(g.hold.cargo())) as u32, qty)
        &&& g.wf() ==> g2.wf()
        &&& g2.bank == g.bank
        &&& g2.debt == g.debt
        &&& g2.hold.cargo() == g.hold.cargo()
        &&& Game::same_ship_but_guns(g, g2)
        &&& match r {
            Ok(cost) => {
                &&& g2.cash == g.cash - cost
                &&& g2.guns == sat_add(g.guns as int, qty as int, u32::MAX as int)
                &&& g2.hold.cap() == g.hold.cap() - qty * GUN_SPACE
            },
            Err(_) => {
                &&& g2.cash == g.cash
                &&& g2.guns == g.guns
                &&& g2.hold.cap() == g.hold.cap()
            },
        }
    }

    /// What `expand_hold` does: from `g` to `g2`, returning `r`.
    pub open spec fn enlarged(g: Game, qty: u32, g2: Game, r: (u32, u32)) -> bool {
        &&& r.0 == min_int(
            min_int(qty as int, (g.cash / HOLD_UNIT_PRICE) as int),
            u32::MAX - g.hold.cap(),
        )
        &&& r.1 == r.0 * HOLD_UNIT_PRICE
        &&& g2.cash == g.cash - r.1
        &&& g2.hold.cap() == g.hold.cap() + r.0
        &&& g2.hold.cargo() == g.hold.cargo()
        &&& g.wf() ==> g2.wf()
        &&& g2.bank == g.bank
        &&& g2.debt == g.debt
        &&& g2.guns == g.guns
        &&& Game::same_ship(g, g2)
    }

    /// What `repair_hull` does: from `g` to `g2`, returning `r`.
    pub open spec fn mended(g: Game, budget: u32, g2: Game, r: (u32, u32)) -> bool {
        &&& r.0 == min_int(
            min_int((budget / REPAIR_POINT_PRICE) as int, (g.cash / REPAIR_POINT_PRICE) as int),
            if g.health >= MAX_HEALTH { 0 } else { MAX_HEALTH - g.health },
        )
        &&& r.1 == r.0 * REPAIR_POINT_PRICE
        &&& g2.cash == g.cash - r.1
        &&& g2.health == g.health + r.0
        &&& g2.bank == g.bank
        &&& g2.debt == g.debt
        &&& g2.hold == g.hold
        &&& g2.location == g.location
        &&& g2.warehouse == g.warehouse
        &&& g2.guns == g.guns
        &&& g2.market == g.market
        &&& g2.outcome == g.outcome
        &&& g2.mode == g.mode
    }

    /// What `travel_to` does: from `g` to `g2`, returning `p`.
    pub open spec fn traveled(g: Game, s: u64, dest: Port, g2: Game, s2: u64, p: Port) -> bool {
        &&& p == dest
        &&& g2.location == dest
        &&& g2.market@ == roll_prices(bias_row(g.mode, dest), s, 4).0
        &&& s2 == roll_prices(bias_row(g.mode, dest), s, 4).1
        &&& g2.debt == sat_add(g.debt as int, g.debt / 100 * DEBT_INTEREST_PERCENT, u64::MAX as int)
        &&& g2.bank == sat_add(g.bank as int, g.bank / 100 * BANK_INTEREST_PERCENT, u64::MAX as int)
        &&& g2.cash == g.cash
        &&& g2.hold == g.hold
        &&& g2.warehouse == g.warehouse
        &&& g2.guns == g.guns
        &&& g2.health == g.health
        &&& g2.outcome == g.outcome
        &&& g2.mode == g.mode
    }

    /// A fresh game under the classic economy.
    pub fn new(rng: &mut Rng) -> (g: Game)
        ensures
            g.fresh(EconomyMode::Classic, old(rng)@),
            final(rng)@ == roll_prices(bias_row(EconomyMode::Classic, Port::HongKong), old(rng)@, 4).1,
    {
        Game::new_with_mode(EconomyMode::Classic, rng)
    }

    /// The state of a new game under `mode` whose opening market was rolled from `s`.
    pub open spec fn fresh(&self, mode: EconomyMode, s: u64) -> bool {
        &&& self.cash == START_CASH
        &&& self.bank == 0
        &&& self.debt == START_DEBT
        &&& self.location == Port::HongKong
        &&& self.hold.cap() == START_HOLD
        &&& self.hold.cargo() == seq![0u32, 0u32, 0u32, 0u32]
        &&& self.warehouse@ == seq![0u32, 0u32, 0u32, 0u32]
        &&& self.guns == START_GUNS
        &&& self.health == MAX_HEALTH
        &&& self.market@ == roll_prices(bias_row(mode, Port::HongKong), s, 4).0
        &&& self.outcome is None
        &&& self.mode == mode
        &&& self.wf()
    }

    /// A fresh game under `mode`: starting cash and debt, full health, an empty hold,
    /// and an opening market rolled for the home port with that model's bias.
    pub fn new_with_mode(mode: EconomyMode, rng: &mut Rng) -> (g: Game)
        ensures
            g.fresh(mode, old(rng)@),
            final(rng)@ == roll_prices(bias_row(mode, Port::HongKong), old(rng)@, 4).1,
    {
        let bias = biases_for(mode, Port::HOME);
        let market = Market::generate_for(bias, rng);
        let warehouse = [0u32; 4];
        assert(warehouse@ == seq![0u32, 0u32, 0u32, 0u32]);
        Game {
            cash: START_CASH,
            bank: 0,
            debt: START_DEBT as u64,
            location: Port::HOME,
            hold: Hold::new(START_HOLD),
            warehouse,
            guns: START_GUNS,
            health: MAX_HEALTH,
            market,
            outcome: None,
            mode,
        }
    }

    /// Net worth: cash + bank + cargo value, less debt, floored at zero.
    pub fn net_worth(&self) -> (w: u64)
        ensures
            w == self.worth(),
    {
        let u = self.hold.units();
        let p = self.market.prices();
        proof {
            self.hold.lemma_len();
            self.market.lemma_len();
        }
        let mut cargo: u128 = 0;
        let mut i: usize = 0;
        while i < 4
            invariant
                i <= 4,
                u@ == self.hold.cargo(),
                p@ == self.market@,
                u@.len() == 4,
                p@.len() == 4,
                cargo == partial_value(u@, p@, i as int),
                cargo <= i * 0xffff_ffff_0000_0001u128,
            decreases 4 - i,
        {
            let a: u128 = u[i] as u128;
            let b: u128 = p[i] as u128;
            proof {
                assert(a * b <= 0xffff_ffffu128 * 0xffff_ffffu128) by (nonlinear_arith)
                    requires a <= 0xffff_ffff, b <= 0xffff_ffff;
            }
            cargo = cargo + a * b;
            i = i + 1;
        }
        proof {
            reveal_with_fuel(partial_value, 5);
            assert(cargo == cargo_value(self.hold.cargo(), self.market@));
        }
        let gross: u128 = self.cash as u128 + self.bank as u128 + cargo;
        let debt: u128 = self.debt as u128;
        if gross <= debt {
            0
        } else if gross - debt > 0xffff_ffff_ffff_ffffu128 {
            0xffff_ffff_ffff_ffffu64
        } else {
            (gross - debt) as u64
        }
    }

    /// The player has reached the retirement target.
    pub fn can_retire(&self) -> (b: bool)
        ensures
            b == (self.worth() >= WIN_TARGET),
    {
        self.net_worth() >= WIN_TARGET
    }

    /// The game is over for some reason.
    pub fn is_over(&self) -> (b: bool)
        ensures
            b == self.outcome is Some,
    {
        self.outcome.is_some()
    }

    /// Buy at the current market.
    pub fn buy(&mut self, good: Good, qty: u32) -> (r: Result<u32, TradeError>)
        requires
            old(self).wf() || qty > affordable(old(self).cash, old(self).market@[good.slot()], qty),
        ensures
            Game::bought(*old(self), good, qty, *final(self), r),
    {
        market::buy(&self.market, &mut self.hold, &mut self.cash, good, qty)
    }

    /// Sell at the current market.
    pub fn sell(&mut self, good: Good, qty: u32) -> (r: Result<u32, TradeError>)
        ensures
            Game::sold(*old(self), good, qty, *final(self), r),
    {
        market::sell(&self.market, &mut self.hold, &mut self.cash, good, qty)
    }

    /// Deposit cash into the bank, capped at the cash on hand (and at what the bank
    /// balance can hold). Returns the amount moved.
    pub fn deposit(&mut self, amount: u32) -> (moved: u32)
        ensures
            Game::deposited(*old(self), amount, *final(self), moved),
    {
        let mut moved = if amount <= self.cash { amount } else { self.cash };
        let room: u64 = u64::MAX - self.bank;
        if moved as u64 > room {
            moved = room as u32;
        }
        self.cash = self.cash - moved;
        self.bank = self.bank + moved as u64;
        moved
    }

    /// Withdraw from the bank into cash, capped at the balance (and at what cash can
    /// hold). Returns the amount moved.
    pub fn withdraw(&mut self, amount: u64) -> (moved: u64)
        ensures
            Game::withdrew(*old(self), amount, *final(self), moved),
    {
        let mut moved = if amount <= self.bank { amount } else { self.bank };
        let room: u64 = (u32::MAX - self.cash) as u64;
        if moved > room {
            moved = room;
        }
        self.bank = self.bank - moved;
        self.cash = self.cash + moved as u32;
        moved
    }

    /// Pay down debt from cash, capped at the smaller of cash and debt. Returns the
    /// amount paid.
    pub fn pay_debt(&mut self, amount: u32) -> (paid: u32)
        ensures
            Game::paid_down(*old(self), amount, *final(self), paid),
    {
        let mut paid: u64 = amount as u64;
        if self.debt < paid {
            paid = self.debt;
        }
        if (self.cash as u64) < paid {
            paid = self.cash as u64;
        }
        let paid = paid as u32;
        self.cash = self.cash - paid;
        self.debt = self.debt - paid as u64;
        paid
    }

    /// Borrow from Elder Brother Wu: cash and debt rise together by `amount`, or by as
    /// much of it as the cash (and the debt) can still hold, so no loan is charged for
    /// money not received.
    pub fn borrow(&mut self, amount: u32)
        ensures
            Game::borrowed(*old(self), amount, *final(self)),
    {
        let mut lent = amount;
        let cash_room: u32 = u32::MAX - self.cash;
        if lent > cash_room {
            lent = cash_room;
        }
        let debt_room: u64 = u64::MAX - self.debt;
        if lent as u64 > debt_room {
            lent = debt_room as u32;
        }
        self.cash = self.cash + lent;
        self.debt = self.debt + lent as u64;
    }

    /// Compound interest once: debt grows by 10% of each whole hundred, the bank
    /// balance by 1%, both pinned at `u64::MAX`.
    pub fn accrue_interest(&mut self)
        ensures
            final(self).debt == sat_add(
                old(self).debt as int,
                old(self).debt / 100 * DEBT_INTEREST_PERCENT,
                u64::MAX as int,
            ),
            final(self).bank == sat_add(
                old(self).bank as int,
                old(self).bank / 100 * BANK_INTEREST_PERCENT,
                u64::MAX as int,
            ),
            final(self).cash == old(self).cash,
            final(self).hold == old(self).hold,
            Game::same_ship(*old(self), *final(self)),
    {
        let debt_interest = self.debt / 100 * DEBT_INTEREST_PERCENT as u64;
        self.debt = self.debt.saturating_add(debt_interest);
        let bank_interest = self.bank / 100 * BANK_INTEREST_PERCENT as u64;
        self.bank = self.bank.saturating_add(bank_interest);
    }

    /// Sail to `dest`: accrue interest, move, and roll the destination's market.
    /// Returns the port arrived at.
    pub fn travel_to(&mut self, dest: Port, rng: &mut Rng) -> (p: Port)
        ensures
            Game::traveled(*old(self), old(rng)@, dest, *final(self), final(rng)@, p),
    {
        self.accrue_interest();
        self.location = dest;
        self.market = Market::generate_for(biases_for(self.mode, dest), rng);
        dest
    }

    /// The game after `amount` hull damage: health floored at zero, and at zero the
    /// ship destroyed.
    pub open spec fn after_damage(self, amount: u32) -> Game {
        let h: u32 = if self.health >= amount { (self.health - amount) as u32 } else { 0 };
        Game {
            health: h,
            outcome: if h == 0 { Some(Outcome::ShipDestroyed) } else { self.outcome },
            ..self
        }
    }

    /// `a` and `b` agree on everything but the hold's cargo.
    pub open spec fn same_but_cargo(a: Game, b: Game) -> bool {
        &&& a.cash == b.cash
        &&& a.bank == b.bank
        &&& a.debt == b.debt
        &&& a.hold.cap() == b.hold.cap()
        &&& Game::same_ship(a, b)
    }

    /// Hull damage, floored at zero; at zero the ship is destroyed and the game ends.
    pub fn damage(&mut self, amount: u32)
        ensures
            *final(self) == old(self).after_damage(amount),
            final(self).health == (if old(self).health >= amount { old(self).health - amount } else { 0 }),
            final(self).outcome == (if final(self).health == 0 {
                Some(Outcome::ShipDestroyed)
            } else {
                old(self).outcome
            }),
            final(self).cash == old(self).cash,
            final(self).bank == old(self).bank,
            final(self).debt == old(self).debt,
            final(self).hold == old(self).hold,
            final(self).location == old(self).location,
            final(self).warehouse == old(self).warehouse,
            final(self).guns == old(self).guns,
            final(self).market == old(self).market,
            final(self).mode == old(self).mode,
    {
        self.health = self.health.saturating_sub(amount);
        if self.health == 0 {
            self.outcome = Some(Outcome::ShipDestroyed);
        }
    }

    /// Repair the hull, capped at `MAX_HEALTH`.
    pub fn repair(&mut self, amount: u32)
        ensures
            final(self).health == min_int(old(self).health + amount, MAX_HEALTH as int),
            final(self).cash == old(self).cash,
            final(self).bank == old(self).bank,
            final(self).debt == old(self).debt,
            final(self).hold == old(self).hold,
            final(self).location == old(self).location,
            final(self).warehouse == old(self).warehouse,
            final(self).guns == old(self).guns,
            final(self).market == old(self).market,
            final(self).outcome == old(self).outcome,
            final(self).mode == old(self).mode,
    {
        let h: u64 = self.health as u64 + amount as u64;
        self.health = if h < MAX_HEALTH as u64 { h as u32 } else { MAX_HEALTH };
    }

    /// Declare victory.
    pub fn retire(&mut self)
        ensures
            Game::retired(*old(self), *final(self)),
    {
        self.outcome = Some(Outcome::Won);
    }

    /// Move cargo from the hold into the warehouse, capped at the quantity held (and
    /// at what the warehouse slot can count). Returns the amount moved.
    pub fn store(&mut self, good: Good, qty: u32) -> (moved: u32)
        ensures
            Game::stored(*old(self), good, qty, *final(self), moved),
    {
        proof {
            self.hold.lemma_len();
        }
        let i = good.index();
        let room: u32 = u32::MAX - self.warehouse[i];
        let want: u32 = if qty <= room { qty } else { room };
        let moved = self.hold.jettison(good, want);
        self.warehouse[i] = self.warehouse[i] + moved;
        moved
    }

    /// Buy `qty` cannons at the shipyard: each costs `GUN_PRICE` cash and takes
    /// `GUN_SPACE` units of hold capacity. Returns the cost; on failure nothing changes.
    pub fn buy_guns(&mut self, qty: u32) -> (r: Result<u32, ShipyardError>)
        requires
            old(self).wf() || qty > old(self).cash / GUN_PRICE,
        ensures
            Game::armed(*old(self), qty, *final(self), r),
    {
        proof {
            self.hold.lemma_len();
        }
        let affordable = self.cash / GUN_PRICE;
        if qty > affordable {
            return Err(ShipyardError::NotEnoughCash { affordable });
        }
        let free = self.hold.free();
        let room = free / GUN_SPACE;
        if qty > room {
            return Err(ShipyardError::NotEnoughHold { room });
        }
        proof {
            assert(qty * GUN_PRICE <= self.cash) by (nonlinear_arith)
                requires qty <= self.cash / GUN_PRICE, GUN_PRICE == 500;
            assert(qty * GUN_SPACE <= free) by (nonlinear_arith)
                requires qty <= free / GUN_SPACE, GUN_SPACE == 10;
        }
        let cost = qty * GUN_PRICE;
        let space = qty * GUN_SPACE;
        self.cash = self.cash - cost;
        self.guns = self.guns.saturating_add(qty);
        let units = self.hold.units();
        let cap = self.hold.capacity();
        self.hold = Hold::from_parts(cap - space, units);
        Ok(cost)
    }

    /// `a` and `b` agree on everything but money, cargo and guns.
    pub open spec fn same_ship_but_guns(a: Game, b: Game) -> bool {
        &&& a.location == b.location
        &&& a.warehouse == b.warehouse
        &&& a.health == b.health
        &&& a.market == b.market
        &&& a.outcome == b.outcome
        &&& a.mode == b.mode
    }

    /// Enlarge the hold by up to `qty` units at `HOLD_UNIT_PRICE` each, as far as cash
    /// (and the capacity's range) allows. Returns `(added, spent)`.
    pub fn expand_hold(&mut self, qty: u32) -> (r: (u32, u32))
        ensures
            Game::enlarged(*old(self), qty, *final(self), r),
    {
        let affordable = self.cash / HOLD_UNIT_PRICE;
        let mut added = if qty <= affordable { qty } else { affordable };
        let room = u32::MAX - self.hold.capacity();
        if added > room {
            added = room;
        }
        proof {
            assert(added * HOLD_UNIT_PRICE <= self.cash) by (nonlinear_arith)
                requires added <= self.cash / HOLD_UNIT_PRICE, HOLD_UNIT_PRICE == 100;
        }
        let spent = added * HOLD_UNIT_PRICE;
        self.cash = self.cash - spent;
        self.hold.expand(added);
        (added, spent)
    }

    /// Spend up to `budget` cash on hull repair at `REPAIR_POINT_PRICE` a point, never
    /// past `MAX_HEALTH` nor past the cash on hand. Returns `(points, spent)`.
    pub fn repair_hull(&mut self, budget: u32) -> (r: (u32, u32))
        ensures
            Game::mended(*old(self), budget, *final(self), r),
    {
        let by_budget = budget / REPAIR_POINT_PRICE;
        let by_cash = self.cash / REPAIR_POINT_PRICE;
        let mut points = if by_budget <= by_cash { by_budget } else { by_cash };
        let missing = if self.health >= MAX_HEALTH { 0 } else { MAX_HEALTH - self.health };
        if points > missing {
            points = missing;
        }
        proof {
            assert(points * REPAIR_POINT_PRICE <= self.cash) by (nonlinear_arith)
                requires points <= self.cash / REPAIR_POINT_PRICE, REPAIR_POINT_PRICE == 10;
        }
        let spent = points * REPAIR_POINT_PRICE;
        self.cash = self.cash - spent;
        self.health = self.health + points;
        (points, spent)
    }
}

/// What a purchase of `qty` cannons returns, given the cash and the free hold space.
pub open spec fn gun_purchase(cash: u32, free: u32, qty: u32) -> Result<u32, ShipyardError> {
    if qty > cash / GUN_PRICE {
        Err(ShipyardError::NotEnoughCash { affordable: cash / GUN_PRICE })
    } else if qty > free / GUN_SPACE {
        Err(ShipyardError::NotEnoughHold { room: free / GUN_SPACE })
    } else {
        Ok((qty * GUN_PRICE) as u32)
    }
}

/// Value of the first `n` cargo slots at the given prices.
pub open spec fn partial_value(u: Seq<u32>, p: Seq<u32>, n: int) -> int
    decreases n,
{
    if n <= 0 {
        0
    } else {
        partial_value(u, p, n - 1) + u[n - 1] * p[n - 1]
    }
}

/// Banking moves money without making or losing any: a deposit, a withdrawal or a
/// debt payment leaves the net worth as it was.
pub proof fn law_banking_keeps_worth(g: Game, amount: u32, g2: Game, moved: u32, g3: Game, taken: u64, g4: Game, paid: u32)
    requires
        Game::deposited(g, amount, g2, moved),
        Game::withdrew(g, amount as u64, g3, taken),
        Game::paid_down(g, amount, g4, paid),
    ensures
        g2.worth() == g.worth(),
        g3.worth() == g.worth(),
        g4.worth() == g.worth(),
{
}

/// Borrowing raises cash and debt together by the same sum, so it leaves the net worth
/// as it was; the whole amount is lent whenever cash and debt can hold it.
pub proof fn law_borrowing_keeps_worth(g: Game, amount: u32, g2: Game)
    requires
        Game::borrowed(g, amount, g2),
    ensures
        g2.cash - g.cash == g2.debt - g.debt,
        g.cash + amount <= u32::MAX && g.debt + amount <= u64::MAX ==> g2.cash == g.cash + amount
            && g2.debt == g.debt + amount,
        g2.worth() == g.worth(),
{
}

/// Selling what was just bought, at the same port, gives back the cash paid and
/// leaves the hold as it was.
pub proof fn law_sell_undoes_buy(
    g: Game,
    good: Good,
    qty: u32,
    g1: Game,
    cost: u32,
    g2: Game,
    r: Result<u32, TradeError>,
)
    requires
        Game::bought(g, good, qty, g1, Ok(cost)),
        Game::sold(g1, good, qty, g2, r),
    ensures
        r == Ok::<u32, TradeError>(cost),
        g2.cash == g.cash,
        g2.hold.cargo() == g.hold.cargo(),
        g2.hold.cap() == g.hold.cap(),
{
    g.hold.lemma_len();
    g.market.lemma_len();
    let price = g.market@[good.slot()];
    let cash = g.cash;
    if price > 0 {
        assert(qty <= cash / price);
        assert(price * qty <= cash) by (nonlinear_arith)
            requires
                price > 0,
                qty <= cash / price,
        ;
    }
    assert(cost == price * qty);
    assert(g2.hold.cargo() =~= g.hold.cargo());
}

/// Storing moves goods from the hold to the warehouse: none are made or lost.
pub proof fn law_store_keeps_goods(g: Game, good: Good, qty: u32, g2: Game, moved: u32)
    requires
        Game::stored(g, good, qty, g2, moved),
    ensures
        g2.hold.cargo()[good.slot()] + g2.warehouse@[good.slot()] == g.hold.cargo()[good.slot()]
            + g.warehouse@[good.slot()],
{
    g.hold.lemma_len();
}

} // verus!
