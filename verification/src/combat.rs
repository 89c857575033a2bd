//! Pirate combat: a small state machine stepped one decision at a time.

use vstd::prelude::*;
use crate::game::{Game, min_int};
use crate::market::{Good, Hold};
use crate::rng::{OUTPUT_MULTIPLIER, Rng, chance_value, draw, range_value, scramble, xorshift};

verus! {

/// Hull points each enemy ship starts with.
pub const ENEMY_HP: u32 = 2;
/// Chance numerator that a single gun hits per round.
pub const GUN_HIT_NUM: u32 = 1;
/// Chance denominator that a single gun hits per round.
pub const GUN_DENOM: u32 = 2;
/// Damage each surviving enemy deals per volley.
pub const ENEMY_DAMAGE: u32 = 3;

/// What the player chose to do this round.
#[derive(Debug, Clone, Copy, PartialEq, Eq, Structural)]
pub enum Decision {
    Fight,
    Run,
    /// Throw `qty` units of `good` overboard to placate the pirates.
    Throw { good: Good, qty: u32 },
}

/// Terminal result of a battle.
#[derive(Debug, Clone, Copy, PartialEq, Eq, Structural)]
pub enum BattleResult {
    /// All enemy ships sunk.
    Victory { sunk: u32 },
    /// The player escaped.
    Escaped,
    /// The pirates took thrown cargo and left.
    Bribed,
    /// The player's ship was destroyed.
    Sunk,
}

/// What happened in one round, for narration.
#[derive(Debug, Clone, Copy, PartialEq, Eq, Structural)]
pub enum RoundReport {
    /// `hits` guns connected, sinking `sunk_now` ships; the survivors then dealt
    /// `damage_taken`.
    Fought { hits: u32, sunk_now: u32, damage_taken: u32 },
    /// Tried to run; if not `escaped`, took a free volley of `damage_taken`.
    Ran { escaped: bool, damage_taken: u32 },
    /// Threw `jettisoned` units; `accepted` says whether the pirates took the bait.
    Threw { accepted: bool, jettisoned: u32 },
}

/// One pirate engagement: remaining hull points of each floating enemy, and the count
/// sunk so far.
#[derive(Debug, Clone)]
pub struct Battle {
    enemies: Vec<u32>,
    sunk: u32,
}

/// Hits scored by the first `n` guns firing from state `s`, and the state after.
pub open spec fn volley(s: u64, n: nat) -> (u64, nat)
    decreases n,
{
    if n == 0 {
        (s, 0)
    } else {
        let prev = volley(s, (n - 1) as nat);
        (xorshift(prev.0), prev.1 + if chance_value(prev.0, GUN_HIT_NUM, GUN_DENOM) { 1nat } else { 0nat })
    }
}

/// Hull points after `hits` are spread front to back, each point soaking one hit;
/// distribution stops when the hits run out.
pub open spec fn absorb(hp: Seq<u32>, hits: nat) -> Seq<u32>
    decreases hp.len(),
{
    if hp.len() == 0 || hits == 0 {
        hp
    } else {
        let a = min_int(hits as int, hp[0] as int);
        seq![(hp[0] - a) as u32] + absorb(hp.drop_first(), (hits - a) as nat)
    }
}

/// Ships reached by the hits that end at zero hull points.
pub open spec fn sunk_by(hp: Seq<u32>, hits: nat) -> nat
    decreases hp.len(),
{
    if hp.len() == 0 || hits == 0 {
        0
    } else {
        let a = min_int(hits as int, hp[0] as int);
        (if hp[0] - a == 0 { 1nat } else { 0nat }) + sunk_by(hp.drop_first(), (hits - a) as nat)
    }
}

/// The ships still afloat.
pub open spec fn afloat(hp: Seq<u32>) -> Seq<u32> {
    hp.filter(|h: u32| h > 0)
}

/// Damage a volley from `n` ships deals, pinned at `u32::MAX`.
pub open spec fn volley_damage(n: nat) -> u32 {
    if n * ENEMY_DAMAGE > u32::MAX {
        u32::MAX
    } else {
        (n * ENEMY_DAMAGE) as u32
    }
}

/// A `u32` count of ships, as `Vec::len() as u32` gives it.
pub open spec fn count32(n: nat) -> u32 {
    n as u32
}

/// Pirate ships for an encounter: 1–4 rolled, plus one per four guns (at most four),
/// at most eight in all.
pub open spec fn encounter_size(s: u64, guns: u32) -> u32 {
    let base = range_value(s, 1, 4);
    let bonus = min_int((guns / 4) as int, 4);
    min_int(base + bonus, 8) as u32
}

/// The denominator of the escape chance with `n` ships chasing: escape comes 3 times
/// in 4 from a lone ship, and falls toward 1 in 4 as the pack grows.
pub open spec fn escape_denominator(n: nat) -> u32 {
    let remaining = if n == 0 { 1 } else { n };
    min_int(remaining + 3 as int, 12) as u32
}

impl Battle {
    /// Remaining hull points of each floating enemy.
    pub closed spec fn ships(&self) -> Seq<u32> {
        self.enemies@
    }

    /// Ships sunk so far.
    pub closed spec fn tally(&self) -> u32 {
        self.sunk
    }

    /// A battle against `ships` fresh pirate vessels.
    pub fn new(ships: u32) -> (b: Battle)
        ensures
            b.ships() == Seq::new(ships as nat, |i: int| ENEMY_HP),
            b.tally() == 0,
    {
        let mut enemies: Vec<u32> = Vec::new();
        let mut i: u32 = 0;
        while i < ships
            invariant
                i <= ships,
                enemies@ == Seq::new(i as nat, |k: int| ENEMY_HP),
            decreases ships - i,
        {
            enemies.push(ENEMY_HP);
            i = i + 1;
            assert(enemies@ == Seq::new(i as nat, |k: int| ENEMY_HP));
        }
        Battle { enemies, sunk: 0 }
    }

    /// Roll the number of attackers, scaled loosely by the guns carried.
    pub fn roll_encounter(rng: &mut Rng, guns: u32) -> (b: Battle)
        ensures
            b.ships() == Seq::new(encounter_size(old(rng)@, guns) as nat, |i: int| ENEMY_HP),
            b.tally() == 0,
            1 <= encounter_size(old(rng)@, guns) <= 8,
            final(rng)@ == xorshift(old(rng)@),
    {
        let base = rng.range(1, 4);
        let by_guns = guns / 4;
        let bonus = if by_guns <= 4 { by_guns } else { 4 };
        let n = base + bonus;
        Battle::new(if n <= 8 { n } else { 8 })
    }

    /// Enemy ships still afloat.
    pub fn enemies_remaining(&self) -> (n: u32)
        ensures
            n == count32(self.ships().len()),
    {
        self.enemies.len() as u32
    }

    /// Ships sunk so far.
    pub fn sunk(&self) -> (n: u32)
        ensures
            n == self.tally(),
    {
        self.sunk
    }

    /// Per-ship remaining hull points.
    pub fn enemy_hps(&self) -> (h: &[u32])
        ensures
            h@ == self.ships(),
    {
        self.enemies.as_slice()
    }

    /// A battle rebuilt from saved parts.
    pub fn from_parts(enemies: Vec<u32>, sunk: u32) -> (b: Battle)
        ensures
            b.ships() == enemies@,
            b.tally() == sunk,
    {
        Battle { enemies, sunk }
    }

    /// Apply one round, mutating the battle and the player's game (hull damage,
    /// jettisoned cargo). Returns the round report and, when the battle is over, its
    /// result.
    /// One round under `d` from `b`, `g`, `s` to `b2`, `g2`, `s2`, reporting `r`.
    pub open spec fn stepped(
        b: Battle,
        d: Decision,
        g: Game,
        s: u64,
        b2: Battle,
        g2: Game,
        s2: u64,
        r: (RoundReport, Option<BattleResult>),
    ) -> bool {
        match d {
            Decision::Fight => Battle::fought(b, g, s, b2, g2, s2, r),
            Decision::Run => Battle::ran(b, g, s, b2, g2, s2, r),
            Decision::Throw { good, qty } => Battle::threw(b, g, s, good, qty, b2, g2, s2, r),
        }
    }

    pub fn step(&mut self, decision: Decision, game: &mut Game, rng: &mut Rng) -> (r: (
        RoundReport,
        Option<BattleResult>,
    ))
        ensures
            Battle::stepped(*old(self), decision, *old(game), old(rng)@, *final(self), *final(game), final(rng)@, r),
    {
        match decision {
            Decision::Fight => self.fight(game, rng),
            Decision::Run => self.run(game, rng),
            Decision::Throw { good, qty } => self.throw(good, qty, game, rng),
        }
    }

    /// A FIGHT round from `b`, `g`, `s` to `b2`, `g2`, `s2` reporting `r`: each gun fires
    /// with even odds, hits sink ships front to back, and unless all are sunk the
    /// survivors fire back.
    pub open spec fn fought(
        b: Battle,
        g: Game,
        s: u64,
        b2: Battle,
        g2: Game,
        s2: u64,
        r: (RoundReport, Option<BattleResult>),
    ) -> bool {
        let v = volley(s, g.guns as nat);
        let hp = absorb(b.ships(), v.1);
        let sunk_now = min_int(sunk_by(b.ships(), v.1) as int, u32::MAX as int) as u32;
        let left = afloat(hp);
        let tally = min_int(b.tally() + sunk_now, u32::MAX as int) as u32;
        &&& s2 == v.0
        &&& b2.ships() == left
        &&& b2.tally() == tally
        &&& if left.len() == 0 {
            &&& g2 == g
            &&& r == (
                RoundReport::Fought { hits: v.1 as u32, sunk_now, damage_taken: 0 },
                Some(BattleResult::Victory { sunk: tally }),
            )
        } else {
            let dmg = volley_damage(count32(left.len()) as nat);
            &&& g2 == g.after_damage(dmg)
            &&& r == (
                RoundReport::Fought { hits: v.1 as u32, sunk_now, damage_taken: dmg },
                if g2.health == 0 { Some(BattleResult::Sunk) } else { None },
            )
        }
    }

    /// A RUN round: escape odds of 3 in `escape_denominator` ships; on failure a free
    /// volley from every ship.
    pub open spec fn ran(
        b: Battle,
        g: Game,
        s: u64,
        b2: Battle,
        g2: Game,
        s2: u64,
        r: (RoundReport, Option<BattleResult>),
    ) -> bool {
        let n = count32(b.ships().len());
        let escaped = chance_value(s, 3, escape_denominator(n as nat));
        &&& s2 == xorshift(s)
        &&& b2 == b
        &&& if escaped {
            &&& g2 == g
            &&& r == (RoundReport::Ran { escaped: true, damage_taken: 0 }, Some(BattleResult::Escaped))
        } else {
            let dmg = volley_damage(n as nat);
            &&& g2 == g.after_damage(dmg)
            &&& r == (
                RoundReport::Ran { escaped: false, damage_taken: dmg },
                if g2.health == 0 { Some(BattleResult::Sunk) } else { None },
            )
        }
    }

    /// A THROW round: up to `qty` units of `good` go overboard; if any did, the pirates
    /// take the bait with odds of min(units, 10) in 12.
    pub open spec fn threw(
        b: Battle,
        g: Game,
        s: u64,
        good: Good,
        qty: u32,
        b2: Battle,
        g2: Game,
        s2: u64,
        r: (RoundReport, Option<BattleResult>),
    ) -> bool {
        let held = g.hold.cargo()[good.slot()];
        let thrown: u32 = if qty <= held { qty } else { held };
        let accepted = thrown > 0 && chance_value(s, min_int(thrown as int, 10) as u32, 12);
        &&& b2 == b
        &&& s2 == (if thrown > 0 { xorshift(s) } else { s })
        &&& Game::same_but_cargo(g, g2)
        &&& g2.hold.cargo() == g.hold.cargo().update(good.slot(), (held - thrown) as u32)
        &&& r == (
            RoundReport::Threw { accepted, jettisoned: thrown },
            if accepted { Some(BattleResult::Bribed) } else { None },
        )
    }

    /// A FIGHT round: the guns fire, the hits sink ships front to back, and the
    /// survivors fire back.
    pub fn fight(&mut self, game: &mut Game, rng: &mut Rng) -> (r: (RoundReport, Option<BattleResult>))
        ensures
            Battle::fought(*old(self), *old(game), old(rng)@, *final(self), *final(game), final(rng)@, r),
    {
        let ghost s0 = rng@;
        let ghost hp0 = self.enemies@;
        let guns = game.guns;
        let mut hits: u32 = 0;
        let mut k: u32 = 0;
        while k < guns
            invariant
                k <= guns,
                rng@ == volley(s0, k as nat).0,
                hits == volley(s0, k as nat).1,
                hits <= k,
            decreases guns - k,
        {
            if rng.chance(GUN_HIT_NUM, GUN_DENOM) {
                hits = hits + 1;
            }
            k = k + 1;
        }
        let mut remaining_hits: u32 = hits;
        let mut sunk_now: u32 = 0;
        let mut idx: usize = 0;
        let ghost target = absorb(hp0, hits as nat);
        let ghost total_sunk = sunk_by(hp0, hits as nat);
        proof {
            assert(hp0.skip(0) == hp0);
            assert(self.enemies@.take(0) + target == target);
            assert(self.enemies@.skip(0) == hp0);
        }
        while idx < self.enemies.len() && remaining_hits > 0
            invariant
                idx <= self.enemies@.len(),
                self.enemies@.len() == hp0.len(),
                self.enemies@.take(idx as int) + absorb(hp0.skip(idx as int), remaining_hits as nat)
                    == target,
                self.enemies@.skip(idx as int) == hp0.skip(idx as int),
                sunk_now == min_int(total_sunk - sunk_by(hp0.skip(idx as int), remaining_hits as nat), u32::MAX as int),
                sunk_by(hp0.skip(idx as int), remaining_hits as nat) <= total_sunk,
                self.sunk == old(self).sunk,
            decreases hp0.len() - idx,
        {
            let ghost rest = hp0.skip(idx as int);
            let ghost before = self.enemies@;
            let hp = self.enemies[idx];
            let absorbed = if remaining_hits <= hp { remaining_hits } else { hp };
            self.enemies.set(idx, hp - absorbed);
            remaining_hits = remaining_hits - absorbed;
            if hp - absorbed == 0 && sunk_now < u32::MAX {
                sunk_now = sunk_now + 1;
            }
            proof {
                assert(rest[0] == hp);
                assert(rest.drop_first() == hp0.skip(idx as int + 1));
                assert(self.enemies@.take(idx as int + 1) == before.take(idx as int).push((hp - absorbed) as u32));
                assert(self.enemies@.skip(idx as int + 1) == before.skip(idx as int + 1));
                assert(before.skip(idx as int + 1) == hp0.skip(idx as int + 1));
            }
            idx = idx + 1;
        }
        proof {
            let rest = hp0.skip(idx as int);
            assert(absorb(rest, remaining_hits as nat) == rest);
            assert(sunk_by(rest, remaining_hits as nat) == 0);
            assert(self.enemies@ == self.enemies@.take(idx as int) + self.enemies@.skip(idx as int));
            assert(self.enemies@ == target);
            assert(sunk_now == min_int(total_sunk as int, u32::MAX as int));
        }
        let kept = afloat_vec(&self.enemies);
        self.enemies = kept;
        self.sunk = if sunk_now <= u32::MAX - self.sunk { self.sunk + sunk_now } else { u32::MAX };
        proof {
            let v = volley(s0, old(game).guns as nat);
            assert(v.0 == rng@);
            assert(v.1 == hits);
            assert(self.enemies@ == afloat(absorb(hp0, v.1)));
            assert(self.sunk == min_int(old(self).sunk + sunk_now, u32::MAX as int));
        }
        if self.enemies.len() == 0 {
            return (
                RoundReport::Fought { hits, sunk_now, damage_taken: 0 },
                Some(BattleResult::Victory { sunk: self.sunk }),
            );
        }
        let damage = volley_damage_exec(self.enemies_remaining());
        game.damage(damage);
        let result = if game.health == 0 { Some(BattleResult::Sunk) } else { None };
        (RoundReport::Fought { hits, sunk_now, damage_taken: damage }, result)
    }

    /// A RUN round: an escape with odds of 3 in `escape_denominator`, or a free volley.
    pub fn run(&mut self, game: &mut Game, rng: &mut Rng) -> (r: (RoundReport, Option<BattleResult>))
        ensures
            Battle::ran(*old(self), *old(game), old(rng)@, *final(self), *final(game), final(rng)@, r),
    {
        let n = self.enemies_remaining();
        let remaining = if n == 0 { 1 } else { n };
        let denom = if remaining <= 9 { remaining + 3 } else { 12 };
        let escaped = rng.chance(3, denom);
        if escaped {
            return (RoundReport::Ran { escaped: true, damage_taken: 0 }, Some(BattleResult::Escaped));
        }
        let damage = volley_damage_exec(n);
        game.damage(damage);
        let result = if game.health == 0 { Some(BattleResult::Sunk) } else { None };
        (RoundReport::Ran { escaped: false, damage_taken: damage }, result)
    }

    /// A THROW round: cargo goes overboard as a bribe.
    pub fn throw(&mut self, good: Good, qty: u32, game: &mut Game, rng: &mut Rng) -> (r: (
        RoundReport,
        Option<BattleResult>,
    ))
        ensures
            Battle::threw(*old(self), *old(game), old(rng)@, good, qty, *final(self), *final(game), final(rng)@, r),
    {
        let jettisoned = game.hold.jettison(good, qty);
        let accepted = jettisoned > 0 && rng.chance(if jettisoned <= 10 { jettisoned } else { 10 }, 12);
        let result = if accepted { Some(BattleResult::Bribed) } else { None };
        (RoundReport::Threw { accepted, jettisoned }, result)
    }
}

/// `volley_damage`, computed.
fn volley_damage_exec(n: u32) -> (d: u32)
    ensures
        d == volley_damage(n as nat),
{
    if n <= u32::MAX / ENEMY_DAMAGE {
        n * ENEMY_DAMAGE
    } else {
        u32::MAX
    }
}

/// The ships of `hp` still afloat, in order.
fn afloat_vec(hp: &Vec<u32>) -> (r: Vec<u32>)
    ensures
        r@ == afloat(hp@),
{
    let mut out: Vec<u32> = Vec::new();
    let mut k: usize = 0;
    while k < hp.len()
        invariant
            k <= hp@.len(),
            out@ == afloat(hp@.take(k as int)),
        decreases hp@.len() - k,
    {
        proof {
            reveal(Seq::filter);
            assert(hp@.take(k as int + 1).drop_last() == hp@.take(k as int));
        }
        if hp[k] > 0 {
            out.push(hp[k]);
        }
        k = k + 1;
    }
    assert(hp@.take(k as int) == hp@);
    out
}

/// A combat round is determined by what it starts from: two rounds under the same
/// decision, from battles with the same ships and tally, the same game and the same
/// generator state, leave the same ships and tally, the same game and generator state,
/// and report the same.
pub proof fn law_round_determined(
    b: Battle,
    c: Battle,
    d: Decision,
    g: Game,
    s: u64,
    b2: Battle,
    g2: Game,
    s2: u64,
    r: (RoundReport, Option<BattleResult>),
    c2: Battle,
    h2: Game,
    t2: u64,
    q: (RoundReport, Option<BattleResult>),
)
    requires
        b.ships() == c.ships(),
        b.tally() == c.tally(),
        Battle::stepped(b, d, g, s, b2, g2, s2, r),
        Battle::stepped(c, d, g, s, c2, h2, t2, q),
    ensures
        b2.ships() == c2.ships(),
        b2.tally() == c2.tally(),
        g2 == h2,
        s2 == t2,
        r == q,
{
    if let Decision::Throw { good, qty } = d {
        Hold::lemma_view_eq(g2.hold, h2.hold);
    }
}

/// Throwing cargo one does not carry never works: nothing goes overboard, the pirates
/// do not take the bait, the battle goes on, and nothing else changes.
pub proof fn law_throwing_nothing_never_bribes(
    b: Battle,
    g: Game,
    s: u64,
    good: Good,
    qty: u32,
    b2: Battle,
    g2: Game,
    s2: u64,
    r: (RoundReport, Option<BattleResult>),
)
    requires
        Battle::threw(b, g, s, good, qty, b2, g2, s2, r),
        g.hold.cargo()[good.slot()] == 0,
    ensures
        r == (RoundReport::Threw { accepted: false, jettisoned: 0 }, None::<BattleResult>),
        b2 == b,
        g2 == g,
        s2 == s,
{
    g.hold.lemma_len();
    assert(g2.hold.cargo() =~= g.hold.cargo());
    Hold::lemma_view_eq(g2.hold, g.hold);
}

/// Running never changes the battle: the ships and the tally stay as they were.
pub proof fn law_running_keeps_the_battle(
    b: Battle,
    g: Game,
    s: u64,
    b2: Battle,
    g2: Game,
    s2: u64,
    r: (RoundReport, Option<BattleResult>),
)
    requires
        Battle::ran(b, g, s, b2, g2, s2, r),
    ensures
        b2.ships() == b.ships(),
        b2.tally() == b.tally(),
{
}


/// A lone pirate ship is outrun three times in four: with one ship chasing, the run
/// succeeds exactly when the draw leaves a residue below 3 modulo 4, and otherwise
/// the ship's volley costs 3 hull points.
pub proof fn law_lone_ship_escape(
    b: Battle,
    g: Game,
    s: u64,
    b2: Battle,
    g2: Game,
    s2: u64,
    r: (RoundReport, Option<BattleResult>),
)
    requires
        Battle::ran(b, g, s, b2, g2, s2, r),
        b.ships().len() == 1,
    ensures
        escape_denominator(1) == 4,
        draw(s) % 4 < 3 ==> (r.0 == (RoundReport::Ran { escaped: true, damage_taken: 0 })),
        draw(s) % 4 < 3 ==> r.1 == Some(BattleResult::Escaped) && g2 == g,
        draw(s) % 4 == 3 ==> (r.0 == (RoundReport::Ran { escaped: false, damage_taken: 3 })),
        draw(s) % 4 == 3 ==> g2 == g.after_damage(3),
{
}

/// The output multiplier is 1 modulo 4, so scrambling keeps a value's residue mod 4.
proof fn lemma_odd_multiplier_keeps_residue(x: u64)
    ensures
        scramble(x) % 4 == x % 4,
{
    let p: nat = x as nat * OUTPUT_MULTIPLIER as nat;
    let k: nat = (OUTPUT_MULTIPLIER / 4) as nat;
    assert(OUTPUT_MULTIPLIER as nat == 4 * k + 1);
    assert(p == 4 * (x as nat * k) + x as nat) by (nonlinear_arith)
        requires p == x as nat * OUTPUT_MULTIPLIER as nat, OUTPUT_MULTIPLIER as nat == 4 * k + 1;
    assert(p % 4 == x % 4) by (nonlinear_arith)
        requires p == 4 * (x as nat * k) + x as nat;
    vstd::arithmetic::div_mod::lemma_mod_mod(p as int, 4, 0x4000_0000_0000_0000);
    assert(4 * 0x4000_0000_0000_0000int == 0x1_0000_0000_0000_0000int);
}

/// Both ends of a run from a lone ship occur: from state 1 the run gets away, from
/// state 3 it is caught.
pub proof fn law_lone_ship_run_goes_both_ways()
    ensures
        draw(1) % 4 < 3,
        draw(3) % 4 == 3,
{
    let x1 = xorshift(1);
    let x3 = xorshift(3);
    assert(x1 % 4 == 1) by (bit_vector)
        requires x1 == xorshift(1);
    assert(x3 % 4 == 3) by (bit_vector)
        requires x3 == xorshift(3);
    lemma_odd_multiplier_keeps_residue(x1);
    lemma_odd_multiplier_keeps_residue(x3);
}


/// The hull points of all the ships in `hp`.
pub open spec fn hull_total(hp: Seq<u32>) -> int
    decreases hp.len(),
{
    if hp.len() == 0 {
        0
    } else {
        hp[0] + hull_total(hp.drop_first())
    }
}

/// Every ship in `hp` still has hull points.
pub open spec fn all_floating(hp: Seq<u32>) -> bool {
    forall|i: int| 0 <= i < hp.len() ==> #[trigger] hp[i] > 0
}

/// `volley` never scores more hits than guns fired.
proof fn lemma_volley_bounded(s: u64, n: nat)
    ensures
        volley(s, n).1 <= n,
    decreases n,
{
    if n > 0 {
        lemma_volley_bounded(s, (n - 1) as nat);
    }
}

/// Spreading `k` hits keeps the number of ships and takes `min(k, total)` hull points.
proof fn lemma_absorb_total(hp: Seq<u32>, k: nat)
    ensures
        absorb(hp, k).len() == hp.len(),
        hull_total(absorb(hp, k)) == hull_total(hp) - min_int(k as int, hull_total(hp)),
        hull_total(hp) >= 0,
    decreases hp.len(),
{
    if hp.len() > 0 {
        let a = min_int(k as int, hp[0] as int);
        lemma_absorb_total(hp.drop_first(), (k - a) as nat);
        if k > 0 {
            let out = absorb(hp, k);
            assert(out.drop_first() == absorb(hp.drop_first(), (k - a) as nat));
        }
    }
}

/// Whether a ship is still afloat, as `afloat` filters.
spec fn floats(h: u32) -> bool {
    h > 0
}

/// Filtering the floating ships from a ship followed by more ships.
proof fn lemma_afloat_cons(x: u32, rest: Seq<u32>)
    ensures
        afloat(seq![x] + rest) == (if x > 0 { seq![x] } else { Seq::<u32>::empty() }) + afloat(rest),
{
    let pred = |h: u32| h > 0;
    Seq::filter_distributes_over_add(seq![x], rest, pred);
    assert(seq![x].drop_last() == Seq::<u32>::empty());
    reveal_with_fuel(Seq::filter, 2);
}

/// Taking the wrecks out keeps the hull total and leaves only floating ships; from
/// floating ships, `k` hits leave exactly `sunk_by` wrecks.
proof fn lemma_afloat_after_absorb(hp: Seq<u32>, k: nat)
    requires
        all_floating(hp),
    ensures
        hull_total(afloat(absorb(hp, k))) == hull_total(absorb(hp, k)),
        afloat(absorb(hp, k)).len() == hp.len() - sunk_by(hp, k),
        all_floating(afloat(absorb(hp, k))),
        sunk_by(hp, k) <= hp.len(),
    decreases hp.len(),
{
    let out = absorb(hp, k);
    lemma_absorb_total(hp, k);
    if hp.len() == 0 {
        reveal_with_fuel(Seq::filter, 1);
    } else if k == 0 {
        lemma_afloat_of_floating(hp);
    } else {
        let a = min_int(k as int, hp[0] as int);
        let rest = hp.drop_first();
        assert(all_floating(rest)) by {
            assert forall|i: int| 0 <= i < rest.len() implies #[trigger] rest[i] > 0 by {
                assert(rest[i] == hp[i + 1]);
            }
        }
        assert(hp[0] > 0);
        lemma_afloat_after_absorb(rest, (k - a) as nat);
        let tail = absorb(rest, (k - a) as nat);
        assert(out == seq![(hp[0] - a) as u32] + tail);
        lemma_afloat_cons((hp[0] - a) as u32, tail);
        let front = if hp[0] - a > 0 { seq![(hp[0] - a) as u32] } else { Seq::<u32>::empty() };
        lemma_total_concat(front, afloat(tail));
        lemma_total_concat(seq![(hp[0] - a) as u32], tail);
        let x = (hp[0] - a) as u32;
        assert(seq![x].drop_first() == Seq::<u32>::empty());
        assert(hull_total(seq![x]) == x) by {
            reveal_with_fuel(hull_total, 2);
        }
        let f = afloat(out);
        assert(all_floating(f)) by {
            assert forall|i: int| 0 <= i < f.len() implies #[trigger] f[i] > 0 by {
                if front.len() == 1 && i == 0 {
                    assert(f[0] == front[0]);
                } else {
                    assert(f[i] == afloat(tail)[i - front.len()]);
                }
            }
        }
    }
}

/// Every ship already floating stays through `afloat`.
proof fn lemma_afloat_of_floating(hp: Seq<u32>)
    requires
        all_floating(hp),
    ensures
        afloat(hp) == hp,
    decreases hp.len(),
{
    if hp.len() > 0 {
        let rest = hp.drop_first();
        assert(all_floating(rest)) by {
            assert forall|i: int| 0 <= i < rest.len() implies #[trigger] rest[i] > 0 by {
                assert(rest[i] == hp[i + 1]);
            }
        }
        lemma_afloat_of_floating(rest);
        assert(hp == seq![hp[0]] + rest);
        lemma_afloat_cons(hp[0], rest);
    } else {
        reveal_with_fuel(Seq::filter, 1);
    }
}

/// The hull total of two lists of ships put together.
proof fn lemma_total_concat(a: Seq<u32>, b: Seq<u32>)
    ensures
        hull_total(a + b) == hull_total(a) + hull_total(b),
    decreases a.len(),
{
    if a.len() > 0 {
        lemma_total_concat(a.drop_first(), b);
        assert((a + b).drop_first() == a.drop_first() + b);
    } else {
        assert(a + b == b);
    }
}

/// A fight round keeps its books: no more hits than guns, every hit takes a hull point
/// while any are left, the wrecks leave the line and join the tally, and unless the
/// line is empty the survivors fire 3 points each.
pub proof fn law_fight_round(
    b: Battle,
    g: Game,
    s: u64,
    b2: Battle,
    g2: Game,
    s2: u64,
    r: (RoundReport, Option<BattleResult>),
)
    requires
        Battle::fought(b, g, s, b2, g2, s2, r),
        all_floating(b.ships()),
        b.tally() + b.ships().len() <= u32::MAX,
        3 * b.ships().len() <= u32::MAX,
    ensures
        (r.0 matches RoundReport::Fought { hits, sunk_now, damage_taken } && {
            &&& hits <= g.guns
            &&& b2.tally() == b.tally() + sunk_now
            &&& b2.ships().len() == b.ships().len() - sunk_now
            &&& all_floating(b2.ships())
            &&& hull_total(b2.ships()) == hull_total(b.ships()) - min_int(hits as int, hull_total(b.ships()))
            &&& b2.ships().len() == 0 ==> damage_taken == 0 && g2 == g
                && r.1 == Some(BattleResult::Victory { sunk: b2.tally() })
            &&& b2.ships().len() > 0 ==> damage_taken == 3 * b2.ships().len()
                && g2.health == (if g.health >= damage_taken { g.health - damage_taken } else { 0 })
                && r.1 == (if g2.health == 0 { Some(BattleResult::Sunk) } else { None })
        }),
{
    let v = volley(s, g.guns as nat);
    lemma_volley_bounded(s, g.guns as nat);
    lemma_absorb_total(b.ships(), v.1);
    lemma_afloat_after_absorb(b.ships(), v.1);
}


/// A bribe: as much of the good as is held and asked goes overboard, and the pirates
/// take it exactly when the draw, read as a number from 1 to 12, is at most the units
/// thrown (counting at most 10); throwing nothing never works.
pub proof fn law_bribe_odds(
    b: Battle,
    g: Game,
    s: u64,
    good: Good,
    qty: u32,
    b2: Battle,
    g2: Game,
    s2: u64,
    r: (RoundReport, Option<BattleResult>),
)
    requires
        Battle::threw(b, g, s, good, qty, b2, g2, s2, r),
    ensures
        (r.0 matches RoundReport::Threw { accepted, jettisoned } && {
            &&& jettisoned == min_int(qty as int, g.hold.cargo()[good.slot()] as int)
            &&& accepted == (jettisoned > 0 && 1 + draw(s) % 12 <= min_int(jettisoned as int, 10))
            &&& r.1 == (if accepted { Some(BattleResult::Bribed) } else { None })
        }),
{
}

/// From the same generator state, a bigger bribe is never refused where a smaller one
/// that threw something was taken; ten units or more are taken exactly when the draw,
/// from 1 to 12, is at most 10.
pub proof fn law_bigger_bribes_work_better(
    b: Battle,
    g: Game,
    s: u64,
    good: Good,
    qty: u32,
    b2: Battle,
    g2: Game,
    s2: u64,
    r: (RoundReport, Option<BattleResult>),
    c: Battle,
    h: Game,
    good_h: Good,
    qty_h: u32,
    c2: Battle,
    h2: Game,
    t2: u64,
    q: (RoundReport, Option<BattleResult>),
)
    requires
        Battle::threw(b, g, s, good, qty, b2, g2, s2, r),
        Battle::threw(c, h, s, good_h, qty_h, c2, h2, t2, q),
    ensures
        (r.0 matches RoundReport::Threw { accepted: a1, jettisoned: j1 } && q.0 matches RoundReport::Threw {
            accepted: a2,
            jettisoned: j2,
        } && (a1 && j1 <= j2 ==> a2)),
        (q.0 matches RoundReport::Threw { accepted, jettisoned } && (jettisoned >= 10 ==> (accepted == (1
            + draw(s) % 12 <= 10)))),
{
}

} // verus!
