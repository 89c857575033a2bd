//! The interactive turn loop, as a state machine fed one input line at a time.

use vstd::prelude::*;
use crate::combat::{Battle, BattleResult, Decision, RoundReport, count32};
use crate::economy::same_text;
use crate::events::{Event, roll, rolled};
use crate::game::{Game, Outcome, MAX_HEALTH, WIN_TARGET};
use crate::economy::{EconomyMode, bias_row};
use crate::market::roll_prices;
use crate::market::{Good, TradeError, buy_result, sell_result, total};
use crate::rng::Rng;
use crate::text::{
    lowercase, parse_u32, parse_u32_spec, push_decimal, push_str, to_chars, trim,
    chars_to_string, to_uppercase, uppercase,
};
use crate::travel::{Port, port_numbered};
use crate::ui::{
    ScriptedIo, Io, num, prices_chars, prices_text, status_chars, status_text, travel_menu_chars,
    travel_menu_text,
};

verus! {

/// What the loop is waiting for.
pub enum Prompt {
    /// The main menu.
    Command,
    /// Which good to buy.
    BuyGood,
    /// How many of `good` to buy.
    BuyQty { good: Good },
    /// Which good to sell.
    SellGood,
    /// How many of `good` to sell.
    SellQty { good: Good },
    /// Deposit, withdraw or pay.
    BankAction,
    /// How much, for the bank action typed.
    BankAmount { action: Vec<char> },
    /// Which port to sail to.
    TravelPort,
    /// A combat decision, mid-voyage to `dest`.
    Fighting { battle: Battle, dest: Port },
    /// Which good to throw overboard.
    ThrowGood { battle: Battle, dest: Port },
    /// How many of `good` to throw.
    ThrowQty { battle: Battle, dest: Port, good: Good },
    /// The loop has ended.
    Over,
}

/// "\n" then how the game ended.
pub open spec fn outcome_text(g: Game) -> Seq<char> {
    "\n"@ + match g.outcome {
        Some(Outcome::Won) => "Taipan, you retire with a net worth of "@ + num(g.worth())
            + "! A legend of the China Seas.\n"@,
        Some(Outcome::ShipDestroyed) => "Your ship is lost beneath the waves. The sea claims another Taipan.\n"@,
        None => Seq::empty(),
    }
}

/// The report, prices, retirement hint and main prompt shown at the top of each turn.
pub open spec fn top_text(g: Game) -> Seq<char> {
    status_text(g) + prices_text(g) + (if g.worth() >= WIN_TARGET {
        "\n>> You can retire a millionaire! Choose (R) to retire. <<\n"@
    } else {
        Seq::empty()
    }) + "\nShall I (B)uy, (S)ell, (T)ravel, ban(K), (R)etire, or (Q)uit? "@
}

/// The opening banner.
pub open spec fn banner_text(g: Game) -> Seq<char> {
    "===========================================\n  Taipan!  \u{2014} build your fortune on the China Seas\n  Retire with a net worth of $1,000,000.  ["@
        + g.mode.title() + " economy]\n===========================================\n"@
}

/// Back at the top of the loop with game `g`: the outcome if the game is over, else
/// the next turn's screen.
pub open spec fn resumed(g: Game, p2: Prompt, out: Seq<char>) -> bool {
    if g.outcome is Some {
        p2 is Over && out == outcome_text(g)
    } else {
        p2 is Command && out == top_text(g)
    }
}

/// The combat prompt with `n` ships left.
pub open spec fn battle_prompt(ships: Seq<u32>, g: Game) -> Seq<char> {
    "  "@ + num(count32(ships.len()) as int) + " pirate ships remain. Your ship: "@ + num(g.health as int)
        + "/"@ + num(MAX_HEALTH as int) + ".\nWill you (F)ight, (R)un, or (T)hrow cargo? "@
}

/// Still fighting battle `ships`/`tally` on the way to `dest`.
pub open spec fn fighting(p: Prompt, ships: Seq<u32>, tally: u32, dest: Port) -> bool {
    p matches Prompt::Fighting { battle, dest: d } && battle.ships() == ships && battle.tally()
        == tally && d == dest
}

/// After the voyage's event (and any battle) with game `g`: the arrival line unless the
/// game is over, then the top of the loop.
pub open spec fn landed(g: Game, dest: Port, p2: Prompt, out: Seq<char>) -> bool {
    if g.outcome is Some {
        resumed(g, p2, out)
    } else {
        let head = "Arrived at "@ + dest.title() + ".\n"@;
        out.len() >= head.len() && out.take(head.len() as int) == head && resumed(
            g,
            p2,
            out.skip(head.len() as int),
        )
    }
}

/// How an arrival event other than pirates is told.
pub open spec fn event_narration(e: Event) -> Seq<char> {
    match e {
        Event::PriceSpike { good, new_price } => "Word is the price of "@ + good.title()
            + " has skyrocketed to "@ + num(new_price as int) + "!\n"@,
        Event::PriceDrop { good, new_price } => "The price of "@ + good.title() + " has crashed to "@
            + num(new_price as int) + "!\n"@,
        Event::LiYuenExtortion { taken } => "Li Yuen's men demand tribute \u{2014} they take "@ + num(
            taken as int,
        ) + " from your purse.\n"@,
        _ => Seq::empty(),
    }
}

/// How one combat round is told.
pub open spec fn round_narration(r: RoundReport) -> Seq<char> {
    match r {
        RoundReport::Fought { hits, sunk_now, damage_taken } => "  You fire \u{2014} "@ + num(hits as int)
            + " hits, "@ + num(sunk_now as int) + " ships sunk. You take "@ + num(damage_taken as int)
            + " damage.\n"@,
        RoundReport::Ran { escaped, damage_taken } => if escaped {
            "  You break for open water...\n"@
        } else {
            "  They cut you off! You take "@ + num(damage_taken as int) + " damage.\n"@
        },
        RoundReport::Threw { accepted, jettisoned } => "  You heave "@ + num(jettisoned as int)
            + " units overboard.\n"@ + if accepted {
            Seq::empty()
        } else {
            "  They scoff and keep coming.\n"@
        },
    }
}

/// How a battle's end is told.
pub open spec fn result_line(r: BattleResult) -> Seq<char> {
    match r {
        BattleResult::Victory { sunk } => "You sank all "@ + num(sunk as int) + " of them, Taipan! Victory!\n"@,
        BattleResult::Escaped => "You slip away into the fog. Escaped!\n"@,
        BattleResult::Bribed => "The pirates take your offering and depart.\n"@,
        BattleResult::Sunk => "Your ship goes down with all hands... \n"@,
    }
}

/// One combat round under `d` in battle `b` on the way to `dest`.
pub open spec fn fought_round(
    b: Battle,
    d: Decision,
    dest: Port,
    g: Game,
    s: u64,
    p2: Prompt,
    g2: Game,
    s2: u64,
    out: Seq<char>,
) -> bool {
    exists|b2: Battle, r: (RoundReport, Option<BattleResult>)|
        {
            &&& #[trigger] Battle::stepped(b, d, g, s, b2, g2, s2, r)
            &&& match r.1 {
                Some(x) => {
                    let head = round_narration(r.0) + result_line(x);
                    out.len() >= head.len() && out.take(head.len() as int) == head && landed(
                        g2,
                        dest,
                        p2,
                        out.skip(head.len() as int),
                    )
                },
                None => {
                    &&& fighting(p2, b2.ships(), b2.tally(), dest)
                    &&& out == round_narration(r.0) + battle_prompt(b2.ships(), g2)
                },
            }
        }
}

/// "'line'" followed by `tail`.
pub open spec fn quoted(line: Seq<char>, tail: Seq<char>) -> Seq<char> {
    "'"@ + line + tail
}

/// What a buy attempt says.
pub open spec fn buy_words(r: Result<u32, TradeError>, q: u32, good: Good) -> Seq<char> {
    match r {
        Ok(cost) => "Bought "@ + num(q as int) + " "@ + good.title() + " for "@ + num(cost as int) + ".\n"@,
        Err(TradeError::NotEnoughCash { affordable }) => "You can only afford "@ + num(affordable as int)
            + " "@ + good.title() + ", Taipan.\n"@,
        Err(TradeError::NotEnoughHold { space }) => "Your hold has room for only "@ + num(space as int)
            + " more units.\n"@,
        Err(TradeError::NotEnoughGoods { .. }) => Seq::empty(),
    }
}

/// What a sell attempt says.
pub open spec fn sell_words(r: Result<u32, TradeError>, q: u32, good: Good) -> Seq<char> {
    match r {
        Ok(p) => "Sold "@ + num(q as int) + " "@ + good.title() + " for "@ + num(p as int) + ".\n"@,
        Err(TradeError::NotEnoughGoods { held }) => "You only have "@ + num(held as int) + " "@
            + good.title() + " to sell, Taipan.\n"@,
        Err(_) => Seq::empty(),
    }
}

/// `out` is `head` followed by text `rest` satisfying `tail`.
pub open spec fn then(out: Seq<char>, head: Seq<char>, g: Game, p2: Prompt) -> bool {
    out.len() >= head.len() && out.take(head.len() as int) == head && resumed(
        g,
        p2,
        out.skip(head.len() as int),
    )
}

/// A good named by typed input, as `Good::parse` reads it.
pub open spec fn good_named(l: Seq<char>) -> Option<Good> {
    Good::named_by(lowercase(trim(l)))
}

/// The main menu answered with key `c` (the typed line, uppercased), from game `g`
/// and generator state `s`.
pub open spec fn command_keyed(c: Seq<char>, g: Game, s: u64, p2: Prompt, g2: Game, s2: u64, out: Seq<char>) -> bool {
    if c == "B"@ {
        p2 is BuyGood && g2 == g && s2 == s && out
            == "What do you wish to buy (Opium/Silk/Arms/General)? "@
    } else if c == "S"@ {
        p2 is SellGood && g2 == g && s2 == s && out
            == "What do you wish to sell (Opium/Silk/Arms/General)? "@
    } else if c == "T"@ {
        p2 is TravelPort && g2 == g && s2 == s && out == travel_menu_text()
            + "Port number? "@
    } else if c == "K"@ {
        if g.location != Port::HongKong {
            g2 == g && s2 == s && then(
                out,
                "The bank and Elder Brother Wu are only in Hong Kong, Taipan.\n"@,
                g,
                p2,
            )
        } else {
            p2 is BankAction && g2 == g && s2 == s && out
                == "(D)eposit, (W)ithdraw, or (P)ay debt? "@
        }
    } else if c == "R"@ {
        if g.worth() >= WIN_TARGET {
            Game::retired(g, g2) && s2 == s && resumed(g2, p2, out)
        } else {
            g2 == g && s2 == s && then(
                out,
                "Taipan, you need a net worth of "@ + num(WIN_TARGET as int)
                    + " to retire \u{2014} you have "@ + num(g.worth()) + ".\n"@,
                g,
                p2,
            )
        }
    } else if c == "Q"@ {
        p2 is Over && g2 == g && s2 == s && out
            == "You slip away into the night. Game abandoned.\n"@
    } else {
        g2 == g && s2 == s && then(out, "I don't understand "@ + quoted(c, "', Taipan.\n"@), g, p2)
    }
}

/// The pirates answered with key `c` (the typed line, uppercased) in `battle` on the
/// way to `dest`.
pub open spec fn fight_keyed(
    battle: Battle,
    dest: Port,
    c: Seq<char>,
    g: Game,
    s: u64,
    p2: Prompt,
    g2: Game,
    s2: u64,
    out: Seq<char>,
) -> bool {
    if c == "F"@ {
        fought_round(battle, Decision::Fight, dest, g, s, p2, g2, s2, out)
    } else if c == "R"@ {
        fought_round(battle, Decision::Run, dest, g, s, p2, g2, s2, out)
    } else if c == "T"@ {
        (p2 matches Prompt::ThrowGood { battle: b2, dest: d2 } && b2.ships() == battle.ships()
            && b2.tally() == battle.tally() && d2 == dest) && g2 == g && s2 == s && out
            == "What do you wish to throw (Opium/Silk/Arms/General)? "@
    } else {
        &&& g2 == g
        &&& s2 == s
        &&& fighting(p2, battle.ships(), battle.tally(), dest)
        &&& out == quoted(c, "'? The pirates wait, Taipan.\n"@) + battle_prompt(battle.ships(), g)
    }
}

/// Feeding `line` (or the end of input) to the loop waiting at `p` with game `g` and
/// generator state `s` leaves it waiting at `p2` with `g2` and `s2`, having printed `out`.
pub open spec fn fed(
    p: Prompt,
    g: Game,
    s: u64,
    line: Option<Seq<char>>,
    p2: Prompt,
    g2: Game,
    s2: u64,
    out: Seq<char>,
) -> bool {
    match p {
        Prompt::Over => p2 is Over && g2 == g && s2 == s && out.len() == 0,
        Prompt::Command => match line {
            None => p2 is Over && g2 == g && s2 == s && out == outcome_text(g),
            Some(l) => command_keyed(uppercase(l), g, s, p2, g2, s2, out),
        },
        Prompt::BuyGood => match line {
            None => g2 == g && s2 == s && resumed(g, p2, out),
            Some(l) => match good_named(l) {
                None => g2 == g && s2 == s && then(out, quoted(l, "' is not a good I trade, Taipan.\n"@), g, p2),
                Some(good) => p2 == Prompt::BuyQty { good } && g2 == g && s2 == s && out == "How many? "@,
            },
        },
        Prompt::BuyQty { good } => match line {
            None => g2 == g && s2 == s && resumed(g, p2, out),
            Some(l) => match parse_u32_spec(l) {
                None => g2 == g && s2 == s && then(out, quoted(l, "' is not a number, Taipan.\n"@), g, p2),
                Some(q) => {
                    let r = buy_result(g.market@[good.slot()], g.cash, g.hold, q);
                    &&& Game::bought(g, good, q, g2, r)
                    &&& s2 == s
                    &&& then(out, buy_words(r, q, good), g2, p2)
                },
            },
        },
        Prompt::SellGood => match line {
            None => g2 == g && s2 == s && resumed(g, p2, out),
            Some(l) => match good_named(l) {
                None => g2 == g && s2 == s && then(out, quoted(l, "' is not a good I trade, Taipan.\n"@), g, p2),
                Some(good) => p2 == Prompt::SellQty { good } && g2 == g && s2 == s && out == "How many? "@,
            },
        },
        Prompt::SellQty { good } => match line {
            None => g2 == g && s2 == s && resumed(g, p2, out),
            Some(l) => match parse_u32_spec(l) {
                None => g2 == g && s2 == s && then(out, quoted(l, "' is not a number, Taipan.\n"@), g, p2),
                Some(q) => {
                    let r = sell_result(g.market@[good.slot()], g.hold, good, q);
                    &&& Game::sold(g, good, q, g2, r)
                    &&& s2 == s
                    &&& then(out, sell_words(r, q, good), g2, p2)
                },
            },
        },
        Prompt::BankAction => match line {
            None => g2 == g && s2 == s && resumed(g, p2, out),
            Some(l) => (p2 matches Prompt::BankAmount { action } && action@ == l) && g2 == g && s2 == s
                && out == "How many? "@,
        },
        Prompt::BankAmount { action } => match line {
            None => g2 == g && s2 == s && resumed(g, p2, out),
            Some(l) => match parse_u32_spec(l) {
                None => g2 == g && s2 == s && then(out, quoted(l, "' is not a number, Taipan.\n"@), g, p2),
                Some(amount) => {
                    let u = uppercase(action@);
                    &&& s2 == s
                    &&& if u == "D"@ {
                        exists|moved: u32|
                            #[trigger] Game::deposited(g, amount, g2, moved) && then(
                                out,
                                "Deposited "@ + num(moved as int) + ". Bank now "@ + num(g2.bank as int) + ".\n"@,
                                g2,
                                p2,
                            )
                    } else if u == "W"@ {
                        exists|moved: u64|
                            #[trigger] Game::withdrew(g, amount as u64, g2, moved) && then(
                                out,
                                "Withdrew "@ + num(moved as int) + ". Cash now "@ + num(g2.cash as int) + ".\n"@,
                                g2,
                                p2,
                            )
                    } else if u == "P"@ {
                        exists|paid: u32|
                            #[trigger] Game::paid_down(g, amount, g2, paid) && then(
                                out,
                                "Paid "@ + num(paid as int) + " toward debt. Debt now "@ + num(g2.debt as int)
                                    + ".\n"@,
                                g2,
                                p2,
                            )
                    } else {
                        g2 == g && then(out, quoted(u, "' is not a bank action, Taipan.\n"@), g, p2)
                    }
                },
            },
        },
        Prompt::TravelPort => match line {
            None => g2 == g && s2 == s && resumed(g, p2, out),
            Some(l) => match parse_u32_spec(l) {
                None => g2 == g && s2 == s && then(out, quoted(l, "' is not a port number, Taipan.\n"@), g, p2),
                Some(n) => if !(1 <= n <= 7) {
                    g2 == g && s2 == s && then(out, "There is no port "@ + num(n as int) + ", Taipan.\n"@, g, p2)
                } else if port_numbered(n as int) == g.location {
                    g2 == g && s2 == s && then(out, "You are already there, Taipan.\n"@, g, p2)
                } else {
                    let dest = port_numbered(n as int);
                    let sail = "Setting sail for "@ + dest.title() + "...\n"@;
                    exists|g1: Game, s1: u64, e: Event|
                        #![trigger Game::traveled(g, s, dest, g1, s1, dest), rolled(g1, s1, g2, s2, e)]
                        {
                            &&& Game::traveled(g, s, dest, g1, s1, dest)
                            &&& rolled(g1, s1, g2, s2, e)
                            &&& match e {
                                Event::Pirates(b) => {
                                    &&& fighting(p2, b.ships(), b.tally(), dest)
                                    &&& out == sail + "\nPIRATES! "@ + num(count32(b.ships().len()) as int)
                                        + " hostile ships close in, Taipan!\n"@ + battle_prompt(b.ships(), g2)
                                },
                                _ => {
                                    let head = sail + event_narration(e);
                                    out.len() >= head.len() && out.take(head.len() as int) == head
                                        && landed(g2, dest, p2, out.skip(head.len() as int))
                                },
                            }
                        }
                },
            },
        },
        Prompt::Fighting { battle, dest } => match line {
            None => g2 == g && s2 == s && landed(g, dest, p2, out),
            Some(l) => fight_keyed(battle, dest, uppercase(l), g, s, p2, g2, s2, out),
        },
        Prompt::ThrowGood { battle, dest } => {
            &&& g2 == g
            &&& s2 == s
            &&& match line {
                None => fighting(p2, battle.ships(), battle.tally(), dest) && out == battle_prompt(
                    battle.ships(),
                    g,
                ),
                Some(l) => match good_named(l) {
                    None => fighting(p2, battle.ships(), battle.tally(), dest) && out == quoted(
                        l,
                        "' is not a good I trade, Taipan.\n"@,
                    ) + battle_prompt(battle.ships(), g),
                    Some(good) => (p2 matches Prompt::ThrowQty { battle: b2, dest: d2, good: g3 }
                        && b2.ships() == battle.ships() && b2.tally() == battle.tally() && d2 == dest
                        && g3 == good) && out == "How many? "@,
                },
            }
        },
        Prompt::ThrowQty { battle, dest, good } => match line {
            None => g2 == g && s2 == s && fighting(p2, battle.ships(), battle.tally(), dest) && out
                == battle_prompt(battle.ships(), g),
            Some(l) => match parse_u32_spec(l) {
                None => g2 == g && s2 == s && fighting(p2, battle.ships(), battle.tally(), dest) && out
                    == quoted(l, "' is not a number, Taipan.\n"@) + battle_prompt(battle.ships(), g),
                Some(q) => fought_round(battle, Decision::Throw { good, qty: q }, dest, g, s, p2, g2, s2, out),
            },
        },
    }
}

/// Splitting a joined text at the join gives back its two parts.
pub proof fn lemma_split_join(head: Seq<char>, rest: Seq<char>)
    ensures
        (head + rest).len() >= head.len(),
        (head + rest).take(head.len() as int) == head,
        (head + rest).skip(head.len() as int) == rest,
{
    assert((head + rest).take(head.len() as int) == head);
    assert((head + rest).skip(head.len() as int) == rest);
}

/// `outcome_text`, built.
fn outcome_chars(g: &Game) -> (r: Vec<char>)
    ensures
        r@ == outcome_text(*g),
{
    let mut out = to_chars("\n");
    match g.outcome {
        Some(Outcome::Won) => {
            push_str(&mut out, "Taipan, you retire with a net worth of ");
            push_decimal(&mut out, g.net_worth());
            push_str(&mut out, "! A legend of the China Seas.\n");
        },
        Some(Outcome::ShipDestroyed) => {
            push_str(&mut out, "Your ship is lost beneath the waves. The sea claims another Taipan.\n");
        },
        None => {
            assert(out@ + Seq::<char>::empty() == out@);
        },
    }
    out
}

/// `top_text`, built.
fn top_chars(g: &Game) -> (r: Vec<char>)
    requires
        g.wf(),
    ensures
        r@ == top_text(*g),
{
    let mut out = status_chars(g);
    let mut p = prices_chars(g);
    out.append(&mut p);
    let ghost before = out@;
    if g.can_retire() {
        push_str(&mut out, "\n>> You can retire a millionaire! Choose (R) to retire. <<\n");
    } else {
        assert(out@ == before + Seq::<char>::empty());
    }
    push_str(&mut out, "\nShall I (B)uy, (S)ell, (T)ravel, ban(K), (R)etire, or (Q)uit? ");
    out
}

/// `battle_prompt`, built.
fn battle_prompt_chars(b: &Battle, g: &Game) -> (r: Vec<char>)
    ensures
        r@ == battle_prompt(b.ships(), *g),
{
    let mut out = to_chars("  ");
    push_decimal(&mut out, b.enemies_remaining() as u64);
    push_str(&mut out, " pirate ships remain. Your ship: ");
    push_decimal(&mut out, g.health as u64);
    push_str(&mut out, "/");
    push_decimal(&mut out, MAX_HEALTH as u64);
    push_str(&mut out, ".\nWill you (F)ight, (R)un, or (T)hrow cargo? ");
    out
}

/// `quoted`, built.
fn quoted_chars(l: &Vec<char>, tail: &str) -> (r: Vec<char>)
    ensures
        r@ == quoted(l@, tail@),
{
    let mut out = to_chars("'");
    let mut c = l.clone();
    assert(c@ == l@);
    out.append(&mut c);
    push_str(&mut out, tail);
    out
}

/// The loop's state: the game and what it waits for.
pub struct Session {
    game: Game,
    prompt: Prompt,
}

impl Session {
    /// The game being played.
    pub closed spec fn world(&self) -> Game {
        self.game
    }

    /// What the loop waits for.
    pub closed spec fn waiting(&self) -> Prompt {
        self.prompt
    }

    /// The game is in a playable shape.
    pub open spec fn wf(&self) -> bool {
        self.world().wf()
    }

    /// Back to the top of the loop: show the outcome if the game is over, else the
    /// next turn's screen.
    fn resume(&mut self) -> (out: Vec<char>)
        requires
            old(self).wf(),
        ensures
            final(self).world() == old(self).world(),
            resumed(old(self).world(), final(self).waiting(), out@),
    {
        if self.game.is_over() {
            self.prompt = Prompt::Over;
            outcome_chars(&self.game)
        } else {
            self.prompt = Prompt::Command;
            top_chars(&self.game)
        }
    }

    /// `head` then back to the top of the loop.
    fn resume_after(&mut self, head: Vec<char>) -> (out: Vec<char>)
        requires
            old(self).wf(),
        ensures
            final(self).world() == old(self).world(),
            then(out@, head@, old(self).world(), final(self).waiting()),
    {
        let mut out = head;
        let ghost h = out@;
        let mut rest = self.resume();
        let ghost r = rest@;
        out.append(&mut rest);
        proof {
            lemma_split_join(h, r);
        }
        out
    }

    /// Start a session on `game`: the banner, then the first turn's screen.
    pub fn start(game: Game) -> (r: (Session, String))
        requires
            game.wf(),
        ensures
            r.0.world() == game,
            r.0.wf(),
            then(r.1@, banner_text(game), game, r.0.waiting()),
    {
        let mut head = to_chars("===========================================\n  Taipan!  \u{2014} build your fortune on the China Seas\n  Retire with a net worth of $1,000,000.  [");
        push_str(&mut head, game.mode.name());
        push_str(&mut head, " economy]\n===========================================\n");
        let mut s = Session { game, prompt: Prompt::Over };
        let out = s.resume_after(head);
        (s, chars_to_string(&out))
    }

    /// The game being played.
    pub fn game(&self) -> (g: &Game)
        ensures
            *g == self.world(),
    {
        &self.game
    }

    /// The loop has ended.
    pub fn is_over(&self) -> (b: bool)
        ensures
            b == self.waiting() is Over,
    {
        match self.prompt {
            Prompt::Over => true,
            _ => false,
        }
    }

    /// The loop is at the top of a turn, waiting for a main-menu choice.
    pub fn at_turn_start(&self) -> (b: bool)
        ensures
            b == self.waiting() is Command,
    {
        match self.prompt {
            Prompt::Command => true,
            _ => false,
        }
    }

    /// A main-menu choice.
    fn on_command(&mut self, line: Option<Vec<char>>, rng: &Rng) -> (out: Vec<char>)
        requires
            old(self).wf(),
        ensures
            final(self).wf(),
            fed(Prompt::Command, old(self).world(), rng@, opt_chars(line), final(self).waiting(), final(self).world(), rng@, out@),
    {
        let l = match line {
            None => {
                self.prompt = Prompt::Over;
                return outcome_chars(&self.game);
            },
            Some(l) => l,
        };
        let c = to_uppercase(&l);
        self.on_menu_key(&c, rng)
    }

    /// Act on a main-menu key: the typed line, already uppercased. Whatever the session
    /// awaited, it answers as the main menu does.
    pub fn on_menu_key(&mut self, c: &Vec<char>, rng: &Rng) -> (out: Vec<char>)
        requires
            old(self).wf(),
        ensures
            final(self).wf(),
            command_keyed(c@, old(self).world(), rng@, final(self).waiting(), final(self).world(), rng@, out@),
    {
        if same_text(c, "B") {
            self.prompt = Prompt::BuyGood;
            to_chars("What do you wish to buy (Opium/Silk/Arms/General)? ")
        } else if same_text(c, "S") {
            self.prompt = Prompt::SellGood;
            to_chars("What do you wish to sell (Opium/Silk/Arms/General)? ")
        } else if same_text(c, "T") {
            self.prompt = Prompt::TravelPort;
            let mut out = travel_menu_chars();
            push_str(&mut out, "Port number? ");
            out
        } else if same_text(c, "K") {
            if self.game.location != Port::HOME {
                self.resume_after(to_chars("The bank and Elder Brother Wu are only in Hong Kong, Taipan.\n"))
            } else {
                self.prompt = Prompt::BankAction;
                to_chars("(D)eposit, (W)ithdraw, or (P)ay debt? ")
            }
        } else if same_text(c, "R") {
            if self.game.can_retire() {
                self.game.retire();
                self.resume()
            } else {
                let mut head = to_chars("Taipan, you need a net worth of ");
                push_decimal(&mut head, WIN_TARGET);
                push_str(&mut head, " to retire \u{2014} you have ");
                push_decimal(&mut head, self.game.net_worth());
                push_str(&mut head, ".\n");
                self.resume_after(head)
            }
        } else if same_text(c, "Q") {
            self.prompt = Prompt::Over;
            to_chars("You slip away into the night. Game abandoned.\n")
        } else {
            let mut head = to_chars("I don't understand ");
            let mut q = quoted_chars(c, "', Taipan.\n");
            head.append(&mut q);
            self.resume_after(head)
        }
    }

    /// A good typed at a buy or sell prompt.
    fn on_good(&mut self, line: Option<Vec<char>>, selling: bool, rng: &Rng) -> (out: Vec<char>)
        requires
            old(self).wf(),
        ensures
            final(self).wf(),
            fed(
                if selling { Prompt::SellGood } else { Prompt::BuyGood },
                old(self).world(),
                rng@,
                opt_chars(line),
                final(self).waiting(),
                final(self).world(),
                rng@,
                out@,
            ),
    {
        let l = match line {
            None => return self.resume(),
            Some(l) => l,
        };
        match Good::parse(chars_to_string(&l).as_str()) {
            None => self.resume_after(quoted_chars(&l, "' is not a good I trade, Taipan.\n")),
            Some(good) => {
                self.prompt = if selling { Prompt::SellQty { good } } else { Prompt::BuyQty { good } };
                to_chars("How many? ")
            },
        }
    }

    /// A quantity typed at a buy prompt.
    fn on_buy_qty(&mut self, good: Good, line: Option<Vec<char>>, rng: &Rng) -> (out: Vec<char>)
        requires
            old(self).wf(),
        ensures
            final(self).wf(),
            fed(Prompt::BuyQty { good }, old(self).world(), rng@, opt_chars(line), final(self).waiting(), final(self).world(), rng@, out@),
    {
        let l = match line {
            None => return self.resume(),
            Some(l) => l,
        };
        let q = match parse_u32(&l) {
            None => return self.resume_after(quoted_chars(&l, "' is not a number, Taipan.\n")),
            Some(q) => q,
        };
        let ghost g0 = self.game;
        let r = self.game.buy(good, q);
        let mut head: Vec<char> = Vec::new();
        match r {
            Ok(cost) => {
                head = to_chars("Bought ");
                push_decimal(&mut head, q as u64);
                push_str(&mut head, " ");
                push_str(&mut head, good.name());
                push_str(&mut head, " for ");
                push_decimal(&mut head, cost as u64);
                push_str(&mut head, ".\n");
            },
            Err(TradeError::NotEnoughCash { affordable }) => {
                head = to_chars("You can only afford ");
                push_decimal(&mut head, affordable as u64);
                push_str(&mut head, " ");
                push_str(&mut head, good.name());
                push_str(&mut head, ", Taipan.\n");
            },
            Err(TradeError::NotEnoughHold { space }) => {
                head = to_chars("Your hold has room for only ");
                push_decimal(&mut head, space as u64);
                push_str(&mut head, " more units.\n");
            },
            Err(TradeError::NotEnoughGoods { .. }) => {
                assert(false);
            },
        }
        assert(head@ == buy_words(r, q, good));
        self.resume_after(head)
    }

    /// A quantity typed at a sell prompt.
    fn on_sell_qty(&mut self, good: Good, line: Option<Vec<char>>, rng: &Rng) -> (out: Vec<char>)
        requires
            old(self).wf(),
        ensures
            final(self).wf(),
            fed(Prompt::SellQty { good }, old(self).world(), rng@, opt_chars(line), final(self).waiting(), final(self).world(), rng@, out@),
    {
        let l = match line {
            None => return self.resume(),
            Some(l) => l,
        };
        let q = match parse_u32(&l) {
            None => return self.resume_after(quoted_chars(&l, "' is not a number, Taipan.\n")),
            Some(q) => q,
        };
        let r = self.game.sell(good, q);
        let mut head: Vec<char> = Vec::new();
        match r {
            Ok(p) => {
                head = to_chars("Sold ");
                push_decimal(&mut head, q as u64);
                push_str(&mut head, " ");
                push_str(&mut head, good.name());
                push_str(&mut head, " for ");
                push_decimal(&mut head, p as u64);
                push_str(&mut head, ".\n");
            },
            Err(TradeError::NotEnoughGoods { held }) => {
                head = to_chars("You only have ");
                push_decimal(&mut head, held as u64);
                push_str(&mut head, " ");
                push_str(&mut head, good.name());
                push_str(&mut head, " to sell, Taipan.\n");
            },
            Err(_) => {
                assert(false);
            },
        }
        assert(head@ == sell_words(r, q, good));
        self.resume_after(head)
    }

    /// The bank action typed.
    fn on_bank_action(&mut self, line: Option<Vec<char>>, rng: &Rng) -> (out: Vec<char>)
        requires
            old(self).wf(),
        ensures
            final(self).wf(),
            fed(Prompt::BankAction, old(self).world(), rng@, opt_chars(line), final(self).waiting(), final(self).world(), rng@, out@),
    {
        match line {
            None => self.resume(),
            Some(l) => {
                self.prompt = Prompt::BankAmount { action: l };
                to_chars("How many? ")
            },
        }
    }

    /// The amount typed for a bank action.
    fn on_bank_amount(&mut self, action: Vec<char>, line: Option<Vec<char>>, rng: &Rng) -> (out: Vec<char>)
        requires
            old(self).wf(),
        ensures
            final(self).wf(),
            fed(Prompt::BankAmount { action }, old(self).world(), rng@, opt_chars(line), final(self).waiting(), final(self).world(), rng@, out@),
    {
        let l = match line {
            None => return self.resume(),
            Some(l) => l,
        };
        let amount = match parse_u32(&l) {
            None => return self.resume_after(quoted_chars(&l, "' is not a number, Taipan.\n")),
            Some(a) => a,
        };
        let ghost g0 = self.game;
        let u = to_uppercase(&action);
        if same_text(&u, "D") {
            let moved = self.game.deposit(amount);
            let mut head = to_chars("Deposited ");
            push_decimal(&mut head, moved as u64);
            push_str(&mut head, ". Bank now ");
            push_decimal(&mut head, self.game.bank);
            push_str(&mut head, ".\n");
            let out = self.resume_after(head);
            assert(Game::deposited(g0, amount, self.game, moved));
            out
        } else if same_text(&u, "W") {
            let moved = self.game.withdraw(amount as u64);
            let mut head = to_chars("Withdrew ");
            push_decimal(&mut head, moved);
            push_str(&mut head, ". Cash now ");
            push_decimal(&mut head, self.game.cash as u64);
            push_str(&mut head, ".\n");
            let out = self.resume_after(head);
            assert(Game::withdrew(g0, amount as u64, self.game, moved));
            out
        } else if same_text(&u, "P") {
            let paid = self.game.pay_debt(amount);
            let mut head = to_chars("Paid ");
            push_decimal(&mut head, paid as u64);
            push_str(&mut head, " toward debt. Debt now ");
            push_decimal(&mut head, self.game.debt);
            push_str(&mut head, ".\n");
            let out = self.resume_after(head);
            assert(Game::paid_down(g0, amount, self.game, paid));
            out
        } else {
            self.resume_after(quoted_chars(&u, "' is not a bank action, Taipan.\n"))
        }
    }

    /// After the voyage's event (and any battle): arrive unless the game is over, then
    /// back to the top of the loop.
    fn land(&mut self, dest: Port) -> (out: Vec<char>)
        requires
            old(self).wf(),
        ensures
            final(self).world() == old(self).world(),
            landed(old(self).world(), dest, final(self).waiting(), out@),
    {
        if self.game.is_over() {
            self.resume()
        } else {
            let mut head = to_chars("Arrived at ");
            push_str(&mut head, dest.name());
            push_str(&mut head, ".\n");
            self.resume_after(head)
        }
    }

    /// A port number typed at the travel prompt.
    pub fn on_travel(&mut self, line: Option<Vec<char>>, rng: &mut Rng) -> (out: Vec<char>)
        requires
            old(self).wf(),
        ensures
            final(self).wf(),
            fed(Prompt::TravelPort, old(self).world(), old(rng)@, opt_chars(line), final(self).waiting(), final(self).world(), final(rng)@, out@),
    {
        let l = match line {
            None => return self.resume(),
            Some(l) => l,
        };
        let n = match parse_u32(&l) {
            None => return self.resume_after(quoted_chars(&l, "' is not a port number, Taipan.\n")),
            Some(n) => n,
        };
        let dest = match Port::from_menu_number(n) {
            None => {
                let mut head = to_chars("There is no port ");
                push_decimal(&mut head, n as u64);
                push_str(&mut head, ", Taipan.\n");
                return self.resume_after(head);
            },
            Some(p) => p,
        };
        if dest == self.game.location {
            return self.resume_after(to_chars("You are already there, Taipan.\n"));
        }
        let mut head = to_chars("Setting sail for ");
        push_str(&mut head, dest.name());
        push_str(&mut head, "...\n");
        let ghost g0 = self.game;
        let ghost s0 = rng@;
        self.game.travel_to(dest, rng);
        let ghost g1 = self.game;
        let ghost s1 = rng@;
        let event = roll(&mut self.game, rng);
        let ghost e0 = event;
        assert(Game::traveled(g0, s0, dest, g1, s1, dest));
        match event {
            Event::Pirates(battle) => {
                push_str(&mut head, "\nPIRATES! ");
                push_decimal(&mut head, battle.enemies_remaining() as u64);
                push_str(&mut head, " hostile ships close in, Taipan!\n");
                let mut bp = battle_prompt_chars(&battle, &self.game);
                head.append(&mut bp);
                self.prompt = Prompt::Fighting { battle, dest };
                head
            },
            other => {
                let ghost h0 = head@;
                match other {
                    Event::PriceSpike { good, new_price } => {
                        push_str(&mut head, "Word is the price of ");
                        push_str(&mut head, good.name());
                        push_str(&mut head, " has skyrocketed to ");
                        push_decimal(&mut head, new_price as u64);
                        push_str(&mut head, "!\n");
                    },
                    Event::PriceDrop { good, new_price } => {
                        push_str(&mut head, "The price of ");
                        push_str(&mut head, good.name());
                        push_str(&mut head, " has crashed to ");
                        push_decimal(&mut head, new_price as u64);
                        push_str(&mut head, "!\n");
                    },
                    Event::LiYuenExtortion { taken } => {
                        push_str(&mut head, "Li Yuen's men demand tribute \u{2014} they take ");
                        push_decimal(&mut head, taken as u64);
                        push_str(&mut head, " from your purse.\n");
                    },
                    _ => {},
                }
                assert(head@ == h0 + event_narration(e0));
                let ghost hh = head@;
                let mut rest = self.land(dest);
                let ghost rr = rest@;
                head.append(&mut rest);
                proof {
                    lemma_split_join(hh, rr);
                }
                head
            },
        }
    }

    /// One combat round under `d`.
    fn round(&mut self, mut battle: Battle, d: Decision, dest: Port, rng: &mut Rng) -> (out: Vec<char>)
        requires
            old(self).wf(),
        ensures
            final(self).wf(),
            fought_round(battle, d, dest, old(self).world(), old(rng)@, final(self).waiting(), final(self).world(), final(rng)@, out@),
    {
        let ghost b0 = battle;
        let ghost g0 = self.game;
        let ghost s0 = rng@;
        let r = battle.step(d, &mut self.game, rng);
        proof {
            g0.hold.lemma_len();
            if let Decision::Throw { good, qty } = d {
                let c = g0.hold.cargo();
                let c2 = self.game.hold.cargo();
                assert(c2[0] <= c[0] && c2[1] <= c[1] && c2[2] <= c[2] && c2[3] <= c[3]);
                assert(total(c2) <= total(c));
            }
            assert(self.game.wf());
        }
        let mut head: Vec<char> = Vec::new();
        match r.0 {
            RoundReport::Fought { hits, sunk_now, damage_taken } => {
                head = to_chars("  You fire \u{2014} ");
                push_decimal(&mut head, hits as u64);
                push_str(&mut head, " hits, ");
                push_decimal(&mut head, sunk_now as u64);
                push_str(&mut head, " ships sunk. You take ");
                push_decimal(&mut head, damage_taken as u64);
                push_str(&mut head, " damage.\n");
            },
            RoundReport::Ran { escaped, damage_taken } => {
                if escaped {
                    head = to_chars("  You break for open water...\n");
                } else {
                    head = to_chars("  They cut you off! You take ");
                    push_decimal(&mut head, damage_taken as u64);
                    push_str(&mut head, " damage.\n");
                }
            },
            RoundReport::Threw { accepted, jettisoned } => {
                head = to_chars("  You heave ");
                push_decimal(&mut head, jettisoned as u64);
                push_str(&mut head, " units overboard.\n");
                if !accepted {
                    push_str(&mut head, "  They scoff and keep coming.\n");
                } else {
                    assert(head@ == head@ + Seq::<char>::empty());
                }
            },
        }
        assert(head@ == round_narration(r.0));
        let ghost h1 = head@;
        match r.1 {
            Some(x) => {
                match x {
                    BattleResult::Victory { sunk } => {
                        push_str(&mut head, "You sank all ");
                        push_decimal(&mut head, sunk as u64);
                        push_str(&mut head, " of them, Taipan! Victory!\n");
                    },
                    BattleResult::Escaped => push_str(&mut head, "You slip away into the fog. Escaped!\n"),
                    BattleResult::Bribed => push_str(&mut head, "The pirates take your offering and depart.\n"),
                    BattleResult::Sunk => push_str(&mut head, "Your ship goes down with all hands... \n"),
                }
                assert(head@ =~= round_narration(r.0) + result_line(x));
                let ghost hh = head@;
                let mut rest = self.land(dest);
                let ghost rr = rest@;
                head.append(&mut rest);
                proof {
                    lemma_split_join(hh, rr);
                }
                assert(Battle::stepped(b0, d, g0, s0, battle, self.game, rng@, r));
                head
            },
            None => {
                let mut bp = battle_prompt_chars(&battle, &self.game);
                head.append(&mut bp);
                let ghost b2 = battle;
                self.prompt = Prompt::Fighting { battle, dest };
                assert(Battle::stepped(b0, d, g0, s0, b2, self.game, rng@, r));
                head
            },
        }
    }

    /// A combat decision typed.
    fn on_fight(&mut self, battle: Battle, dest: Port, line: Option<Vec<char>>, rng: &mut Rng) -> (out: Vec<char>)
        requires
            old(self).wf(),
        ensures
            final(self).wf(),
            fed(
                Prompt::Fighting { battle, dest },
                old(self).world(),
                old(rng)@,
                opt_chars(line),
                final(self).waiting(),
                final(self).world(),
                final(rng)@,
                out@,
            ),
    {
        let l = match line {
            None => return self.land(dest),
            Some(l) => l,
        };
        let c = to_uppercase(&l);
        self.on_battle_key(battle, dest, &c, rng)
    }

    /// Act on a key typed at the pirates' prompt: the typed line, already uppercased,
    /// in `battle` on the way to `dest`.
    pub fn on_battle_key(&mut self, battle: Battle, dest: Port, c: &Vec<char>, rng: &mut Rng) -> (out: Vec<char>)
        requires
            old(self).wf(),
        ensures
            final(self).wf(),
            fight_keyed(battle, dest, c@, old(self).world(), old(rng)@, final(self).waiting(), final(self).world(), final(rng)@, out@),
    {
        if same_text(c, "F") {
            self.round(battle, Decision::Fight, dest, rng)
        } else if same_text(c, "R") {
            self.round(battle, Decision::Run, dest, rng)
        } else if same_text(c, "T") {
            self.prompt = Prompt::ThrowGood { battle, dest };
            to_chars("What do you wish to throw (Opium/Silk/Arms/General)? ")
        } else {
            let mut out = quoted_chars(c, "'? The pirates wait, Taipan.\n");
            let mut bp = battle_prompt_chars(&battle, &self.game);
            out.append(&mut bp);
            self.prompt = Prompt::Fighting { battle, dest };
            out
        }
    }

    /// A good typed at the throw prompt.
    fn on_throw_good(&mut self, battle: Battle, dest: Port, line: Option<Vec<char>>, rng: &Rng) -> (out: Vec<char>)
        requires
            old(self).wf(),
        ensures
            final(self).wf(),
            fed(
                Prompt::ThrowGood { battle, dest },
                old(self).world(),
                rng@,
                opt_chars(line),
                final(self).waiting(),
                final(self).world(),
                rng@,
                out@,
            ),
    {
        let mut out: Vec<char> = Vec::new();
        match line {
            None => {},
            Some(l) => match Good::parse(chars_to_string(&l).as_str()) {
                None => {
                    out = quoted_chars(&l, "' is not a good I trade, Taipan.\n");
                },
                Some(good) => {
                    self.prompt = Prompt::ThrowQty { battle, dest, good };
                    return to_chars("How many? ");
                },
            },
        }
        let mut bp = battle_prompt_chars(&battle, &self.game);
        out.append(&mut bp);
        self.prompt = Prompt::Fighting { battle, dest };
        out
    }

    /// A quantity typed at the throw prompt.
    fn on_throw_qty(&mut self, battle: Battle, dest: Port, good: Good, line: Option<Vec<char>>, rng: &mut Rng) -> (out: Vec<char>)
        requires
            old(self).wf(),
        ensures
            final(self).wf(),
            fed(
                Prompt::ThrowQty { battle, dest, good },
                old(self).world(),
                old(rng)@,
                opt_chars(line),
                final(self).waiting(),
                final(self).world(),
                final(rng)@,
                out@,
            ),
    {
        let mut out: Vec<char> = Vec::new();
        match line {
            None => {},
            Some(l) => match parse_u32(&l) {
                None => {
                    out = quoted_chars(&l, "' is not a number, Taipan.\n");
                },
                Some(q) => {
                    return self.round(battle, Decision::Throw { good, qty: q }, dest, rng);
                },
            },
        }
        let mut bp = battle_prompt_chars(&battle, &self.game);
        out.append(&mut bp);
        self.prompt = Prompt::Fighting { battle, dest };
        out
    }

    /// Feed the loop one input line (or the end of input); returns what it prints.
    pub fn feed(&mut self, line: Option<String>, rng: &mut Rng) -> (out: String)
        requires
            old(self).wf(),
        ensures
            final(self).wf(),
            fed(
                old(self).waiting(),
                old(self).world(),
                old(rng)@,
                match line {
                    Some(l) => Some(l@),
                    None => None,
                },
                final(self).waiting(),
                final(self).world(),
                final(rng)@,
                out@,
            ),
    {
        let mut p = Prompt::Over;
        std::mem::swap(&mut p, &mut self.prompt);
        let l = match line {
            Some(x) => Some(to_chars(x.as_str())),
            None => None,
        };
        let out = match p {
            Prompt::Over => Vec::new(),
            Prompt::Command => self.on_command(l, rng),
            Prompt::BuyGood => self.on_good(l, false, rng),
            Prompt::SellGood => self.on_good(l, true, rng),
            Prompt::BuyQty { good } => self.on_buy_qty(good, l, rng),
            Prompt::SellQty { good } => self.on_sell_qty(good, l, rng),
            Prompt::BankAction => self.on_bank_action(l, rng),
            Prompt::BankAmount { action } => self.on_bank_amount(action, l, rng),
            Prompt::TravelPort => self.on_travel(l, rng),
            Prompt::Fighting { battle, dest } => self.on_fight(battle, dest, l, rng),
            Prompt::ThrowGood { battle, dest } => self.on_throw_good(battle, dest, l, rng),
            Prompt::ThrowQty { battle, dest, good } => self.on_throw_qty(battle, dest, good, l, rng),
        };
        chars_to_string(&out)
    }
}

/// The characters of an optional input line.
pub open spec fn opt_chars(l: Option<Vec<char>>) -> Option<Seq<char>> {
    match l {
        Some(v) => Some(v@),
        None => None,
    }
}


/// How far a prompt is from the end of the loop: the end of input always lowers it.
pub open spec fn rank(p: Prompt) -> int {
    match p {
        Prompt::Over => 0,
        Prompt::Command => 1,
        Prompt::ThrowGood { .. } => 3,
        Prompt::ThrowQty { .. } => 3,
        _ => 2,
    }
}

/// Fed the end of input, a loop that has not ended moves to a prompt of lower rank.
pub proof fn lemma_end_of_input_ranks_down(
    p: Prompt,
    g: Game,
    s: u64,
    p2: Prompt,
    g2: Game,
    s2: u64,
    out: Seq<char>,
)
    requires
        fed(p, g, s, None, p2, g2, s2, out),
        !(p is Over),
    ensures
        rank(p2) < rank(p),
{
}

/// The line read at step `i` of a play over `ins`: the end of input once they run out.
pub open spec fn line_at(ins: Seq<Seq<char>>, i: int) -> Option<Seq<char>> {
    if 0 <= i < ins.len() {
        Some(ins[i])
    } else {
        None
    }
}

/// `states` and `outs` trace the loop over `ins`: step `i` feeds line `i` to state `i`,
/// reaching state `i + 1` and printing `outs[i]`, and the loop had not ended before it.
pub open spec fn traced(states: Seq<(Prompt, Game, u64)>, ins: Seq<Seq<char>>, outs: Seq<Seq<char>>) -> bool {
    &&& states.len() == outs.len() + 1
    &&& forall|i: int|
        #![trigger outs[i]]
        0 <= i < outs.len() ==> {
            &&& live(states[i].0)
            &&& stepped_to(states[i], line_at(ins, i), states[i + 1], outs[i])
        }
}

/// The loop has not ended at `p`.
pub open spec fn live(p: Prompt) -> bool {
    !(p is Over)
}

/// `fed`, over whole loop states.
#[verifier::opaque]
pub open spec fn stepped_to(a: (Prompt, Game, u64), line: Option<Seq<char>>, b: (Prompt, Game, u64), out: Seq<char>) -> bool {
    fed(a.0, a.1, a.2, line, b.0, b.1, b.2, out)
}

/// A trace extended by one more step is still a trace.
proof fn lemma_traced_push(
    states: Seq<(Prompt, Game, u64)>,
    ins: Seq<Seq<char>>,
    outs: Seq<Seq<char>>,
    next: (Prompt, Game, u64),
    out: Seq<char>,
)
    requires
        traced(states, ins, outs),
        live(states.last().0),
        stepped_to(states.last(), line_at(ins, outs.len() as int), next, out),
    ensures
        traced(states.push(next), ins, outs.push(out)),
{
    let s2 = states.push(next);
    let o2 = outs.push(out);
    assert forall|i: int| 0 <= i < o2.len() implies #[trigger] live(s2[i].0) by {
        if i < outs.len() {
            assert(outs[i] == o2[i]);
            assert(s2[i] == states[i]);
        } else {
            assert(s2[i] == states.last());
        }
    }
    assert forall|i: int| #![trigger o2[i]] 0 <= i < o2.len() implies live(s2[i].0) by {
        assert(live(s2[i].0));
    }
    assert forall|i: int| #![trigger o2[i]] 0 <= i < o2.len() implies stepped_to(s2[i], line_at(ins, i), s2[i + 1], o2[i]) by {
        if i < outs.len() {
            assert(outs[i] == o2[i]);
            assert(s2[i] == states[i] && s2[i + 1] == states[i + 1]);
        } else {
            assert(s2[i] == states.last() && s2[i + 1] == next);
        }
    }
}

/// The opening of a play of `g`: the banner, then the loop waiting at `p`.
pub open spec fn opened(g: Game, p: Prompt, out: Seq<char>) -> bool {
    then(out, banner_text(g), g, p)
}

/// A whole play of `game` from generator state `s` over the lines `ins`: the loop
/// opened, was fed line after line (the end of input once they ran out) until it
/// ended with outcome `r` and generator state `s_end`, printed `out` in all, and left
/// the lines `rest` unread.
pub open spec fn played(
    game: Game,
    s: u64,
    ins: Seq<Seq<char>>,
    out: Seq<char>,
    r: Option<Outcome>,
    s_end: u64,
    rest: Seq<Seq<char>>,
) -> bool {
    exists|states: Seq<(Prompt, Game, u64)>, outs: Seq<Seq<char>>, first: Seq<char>|
        #![trigger traced(states, ins, outs), opened(game, states[0].0, first)]
        {
            &&& traced(states, ins, outs)
            &&& states[0].1 == game
            &&& states[0].2 == s
            &&& opened(game, states[0].0, first)
            &&& states.last().0 is Over
            &&& r == states.last().1.outcome
            &&& s_end == states.last().2
            &&& out == first + outs.flatten()
            &&& rest == ins.skip(if outs.len() <= ins.len() { outs.len() as int } else { ins.len() as int })
        }
}

/// Play `game` to the end over the scripted input: the banner, then turn after turn
/// until the player retires, quits, sinks or the input runs out. Returns the outcome.
pub fn run_game(io: &mut ScriptedIo, game: Game, rng: &mut Rng) -> (r: Option<Outcome>)
    requires
        game.wf(),
    ensures
        final(io).transcript().len() >= old(io).transcript().len(),
        final(io).transcript().take(old(io).transcript().len() as int) == old(io).transcript(),
        played(
            game,
            old(rng)@,
            old(io).remaining(),
            final(io).transcript().skip(old(io).transcript().len() as int),
            r,
            final(rng)@,
            final(io).remaining(),
        ),
{
    let ghost t0 = io.transcript();
    let ghost ins = io.remaining();
    let ghost s0 = rng@;
    let (mut session, first) = Session::start(game);
    io.put(first.as_str());
    let ghost f = first@;
    let ghost mut states: Seq<(Prompt, Game, u64)> = seq![(session.waiting(), game, s0)];
    let ghost mut outs: Seq<Seq<char>> = Seq::empty();
    proof {
        assert(ins.skip(0) == ins);
        assert(outs.flatten() == Seq::<char>::empty());
        assert(f + outs.flatten() == f);
    }
    while !session.is_over()
        invariant
            session.wf(),
            traced(states, ins, outs),
            states[0] == (states[0].0, game, s0),
            opened(game, states[0].0, f),
            states.last() == (session.waiting(), session.world(), rng@),
            io.transcript() == t0 + (f + outs.flatten()),
            io.remaining() == ins.skip(if outs.len() <= ins.len() { outs.len() as int } else { ins.len() as int }),
        decreases io.remaining().len(), rank(session.waiting()),
    {
        let ghost k = outs.len() as int;
        let ghost p0 = session.waiting();
        let ghost rem0 = io.remaining();
        let ghost g_prev = session.world();
        let ghost s_prev = rng@;
        let line = io.read_line();
        proof {
            if k < ins.len() {
                assert(rem0[0] == ins[k]);
            }
            assert(match line { Some(l) => Some(l@), None => None::<Seq<char>> } == line_at(ins, k));
        }
        let out = session.feed(line, rng);
        io.put(out.as_str());
        proof {
            let st = (session.waiting(), session.world(), rng@);
            assert(stepped_to((p0, g_prev, s_prev), line_at(ins, k), st, out@)) by {
                reveal(stepped_to);
            }
            lemma_traced_push(states, ins, outs, st, out@);
            outs.lemma_flatten_push(out@);
            assert(t0 + (f + outs.flatten()) + out@ == t0 + (f + outs.push(out@).flatten()));
            if k < ins.len() {
                assert(ins.skip(k + 1) == ins.skip(k).drop_first());
            } else {
                lemma_end_of_input_ranks_down(p0, g_prev, s_prev, st.0, st.1, st.2, out@);
            }
            states = states.push(st);
            outs = outs.push(out@);
        }
    }
    proof {
        assert(played(game, s0, ins, f + outs.flatten(), session.world().outcome, rng@, io.remaining()));
        assert(io.transcript().take(t0.len() as int) == t0);
        assert(io.transcript().skip(t0.len() as int) == f + outs.flatten());
    }
    session.game().outcome
}

/// Play a new classic-economy game over the scripted input; returns the outcome.
pub fn run(io: &mut ScriptedIo, rng: &mut Rng) -> (r: Option<Outcome>)
    ensures
        exists|game: Game, s: u64|
            #![trigger game.fresh(EconomyMode::Classic, old(rng)@), played(game, s, old(io).remaining(), final(io).transcript().skip(old(io).transcript().len() as int), r, final(rng)@, final(io).remaining())]
            {
                &&& game.fresh(EconomyMode::Classic, old(rng)@)
                &&& s == roll_prices(bias_row(EconomyMode::Classic, Port::HongKong), old(rng)@, 4).1
                &&& played(
                    game,
                    s,
                    old(io).remaining(),
                    final(io).transcript().skip(old(io).transcript().len() as int),
                    r,
                    final(rng)@,
                    final(io).remaining(),
                )
            },
        final(io).transcript().len() >= old(io).transcript().len(),
        final(io).transcript().take(old(io).transcript().len() as int) == old(io).transcript(),
{
    let game = Game::new(rng);
    run_game(io, game, rng)
}


/// The pirates wait for a real answer: at the battle prompt, a key other than F, R or T
/// changes neither the game nor the generator, keeps the battle as it was, says it did
/// not understand, and asks again, the text ending with the question.
pub proof fn law_pirates_wait(
    battle: Battle,
    dest: Port,
    c: Seq<char>,
    g: Game,
    s: u64,
    p2: Prompt,
    g2: Game,
    s2: u64,
    out: Seq<char>,
)
    requires
        fight_keyed(battle, dest, c, g, s, p2, g2, s2, out),
        c != "F"@,
        c != "R"@,
        c != "T"@,
    ensures
        g2 == g,
        s2 == s,
        fighting(p2, battle.ships(), battle.tally(), dest),
        out == "'"@ + c + "'? The pirates wait, Taipan.\n"@ + battle_prompt(battle.ships(), g),
        out.len() >= "Will you (F)ight, (R)un, or (T)hrow cargo? "@.len(),
        out.skip(out.len() - "Will you (F)ight, (R)un, or (T)hrow cargo? "@.len())
            == "Will you (F)ight, (R)un, or (T)hrow cargo? "@,
{
    let q = "Will you (F)ight, (R)un, or (T)hrow cargo? "@;
    reveal_strlit("Will you (F)ight, (R)un, or (T)hrow cargo? ");
    reveal_strlit(".\nWill you (F)ight, (R)un, or (T)hrow cargo? ");
    reveal_strlit(".\n");
    assert(".\nWill you (F)ight, (R)un, or (T)hrow cargo? "@ == ".\n"@ + q);
    let head = "'"@ + c + "'? The pirates wait, Taipan.\n"@ + "  "@ + num(count32(battle.ships().len()) as int)
        + " pirate ships remain. Your ship: "@ + num(g.health as int) + "/"@ + num(MAX_HEALTH as int) + ".\n"@;
    assert(out == head + q);
    assert((head + q).skip(head.len() as int) == q);
}


/// The bank does what its prompt offers: at the amount prompt, an action read as `D`
/// deposits as much of the amount as the cash (and the balance's range) allows, `W`
/// withdraws as much as the balance (and the cash's range) allows, `P` pays down as much
/// as both the debt and the cash allow, and each reports the sum moved; any other
/// letter changes nothing. The generator is never touched.
pub proof fn law_bank_does_what_it_offers(
    action: Vec<char>,
    g: Game,
    s: u64,
    l: Seq<char>,
    amount: u32,
    p2: Prompt,
    g2: Game,
    s2: u64,
    out: Seq<char>,
)
    requires
        fed(Prompt::BankAmount { action }, g, s, Some(l), p2, g2, s2, out),
        parse_u32_spec(l) == Some(amount),
    ensures
        s2 == s,
        g2.location == g.location && g2.hold == g.hold && g2.guns == g.guns && g2.health == g.health,
        uppercase(action@) == "D"@ ==> ({
            let moved = crate::game::min_int(crate::game::min_int(amount as int, g.cash as int), u64::MAX - g.bank);
            &&& g2.cash == g.cash - moved
            &&& g2.bank == g.bank + moved
            &&& g2.debt == g.debt
            &&& out.take(("Deposited "@ + num(moved)).len() as int) == "Deposited "@ + num(moved)
        }),
        uppercase(action@) == "W"@ ==> ({
            let moved = crate::game::min_int(crate::game::min_int(amount as int, g.bank as int), u32::MAX - g.cash);
            &&& g2.cash == g.cash + moved
            &&& g2.bank == g.bank - moved
            &&& g2.debt == g.debt
            &&& out.take(("Withdrew "@ + num(moved)).len() as int) == "Withdrew "@ + num(moved)
        }),
        uppercase(action@) == "P"@ ==> ({
            let paid = crate::game::min_int(crate::game::min_int(amount as int, g.debt as int), g.cash as int);
            let head = "Paid "@ + num(paid) + " toward debt. Debt now "@ + num(g.debt - paid) + ".\n"@;
            &&& g2.cash == g.cash - paid
            &&& g2.debt == g.debt - paid
            &&& g2.bank == g.bank
            &&& out.len() >= head.len()
            &&& out.take(head.len() as int) == head
        }),
        uppercase(action@) != "D"@ && uppercase(action@) != "W"@ && uppercase(action@) != "P"@ ==> g2 == g,
{
    let u = uppercase(action@);
    reveal_strlit("D");
    reveal_strlit("W");
    reveal_strlit("P");
    assert("D"@ != "W"@) by {
        assert("D"@[0] != "W"@[0]);
    }
    assert("D"@ != "P"@) by {
        assert("D"@[0] != "P"@[0]);
    }
    assert("W"@ != "P"@) by {
        assert("W"@[0] != "P"@[0]);
    }
    if u == "D"@ {
        let moved = choose|moved: u32| #[trigger] Game::deposited(g, amount, g2, moved) && then(
            out,
            "Deposited "@ + num(moved as int) + ". Bank now "@ + num(g2.bank as int) + ".\n"@,
            g2,
            p2,
        );
        let head = "Deposited "@ + num(moved as int);
        let whole = head + ". Bank now "@ + num(g2.bank as int) + ".\n"@;
        assert(whole.take(head.len() as int) =~= head);
        assert(out.take(head.len() as int) =~= whole.take(head.len() as int));
    } else if u == "W"@ {
        let moved = choose|moved: u64| #[trigger] Game::withdrew(g, amount as u64, g2, moved) && then(
            out,
            "Withdrew "@ + num(moved as int) + ". Cash now "@ + num(g2.cash as int) + ".\n"@,
            g2,
            p2,
        );
        let head = "Withdrew "@ + num(moved as int);
        let whole = head + ". Cash now "@ + num(g2.cash as int) + ".\n"@;
        assert(whole.take(head.len() as int) =~= head);
        assert(out.take(whole.len() as int) == whole);
        assert(out.take(head.len() as int) =~= whole.take(head.len() as int));
        assert(moved == crate::game::min_int(crate::game::min_int(amount as int, g.bank as int), u32::MAX - g.cash));
    } else if u == "P"@ {
        let paid = choose|paid: u32| #[trigger] Game::paid_down(g, amount, g2, paid) && then(
            out,
            "Paid "@ + num(paid as int) + " toward debt. Debt now "@ + num(g2.debt as int) + ".\n"@,
            g2,
            p2,
        );
        assert(paid == crate::game::min_int(crate::game::min_int(amount as int, g.debt as int), g.cash as int));
        assert(g2.debt == g.debt - paid);
    }
}


/// Letters must be told apart: distinct one-letter keys are distinct.
proof fn lemma_keys_differ()
    ensures
        "B"@ != "S"@, "B"@ != "T"@, "B"@ != "K"@, "B"@ != "R"@, "B"@ != "Q"@,
        "S"@ != "T"@, "S"@ != "K"@, "S"@ != "R"@, "S"@ != "Q"@,
        "T"@ != "K"@, "T"@ != "R"@, "T"@ != "Q"@,
        "K"@ != "R"@, "K"@ != "Q"@, "R"@ != "Q"@,
        "F"@ != "R"@, "F"@ != "T"@,
{
    reveal_strlit("B");
    reveal_strlit("S");
    reveal_strlit("T");
    reveal_strlit("K");
    reveal_strlit("R");
    reveal_strlit("Q");
    reveal_strlit("F");
    assert("B"@[0] != "S"@[0] && "B"@[0] != "T"@[0] && "B"@[0] != "K"@[0] && "B"@[0] != "R"@[0]
        && "B"@[0] != "Q"@[0]);
    assert("S"@[0] != "T"@[0] && "S"@[0] != "K"@[0] && "S"@[0] != "R"@[0] && "S"@[0] != "Q"@[0]);
    assert("T"@[0] != "K"@[0] && "T"@[0] != "R"@[0] && "T"@[0] != "Q"@[0]);
    assert("K"@[0] != "R"@[0] && "K"@[0] != "Q"@[0] && "R"@[0] != "Q"@[0]);
    assert("F"@[0] != "R"@[0] && "F"@[0] != "T"@[0]);
}

/// The main menu does what its letters name: B asks what to buy, S what to sell, T
/// where to sail, K opens the bank at Hong Kong, Q abandons the game; none of these
/// touches the game or the generator.
pub proof fn law_menu_letters(c: Seq<char>, g: Game, s: u64, p2: Prompt, g2: Game, s2: u64, out: Seq<char>)
    requires
        command_keyed(c, g, s, p2, g2, s2, out),
    ensures
        c == "B"@ ==> p2 is BuyGood && g2 == g && s2 == s,
        c == "S"@ ==> p2 is SellGood && g2 == g && s2 == s,
        c == "T"@ ==> p2 is TravelPort && g2 == g && s2 == s,
        c == "K"@ && g.location == Port::HongKong ==> p2 is BankAction && g2 == g && s2 == s,
        c == "Q"@ ==> p2 is Over && g2 == g && s2 == s,
{
    lemma_keys_differ();
}

/// At the pirates' prompt, F fights a round, R tries to run, and T asks what to throw,
/// leaving the game and the generator as they were.
pub proof fn law_battle_letters(
    battle: Battle,
    dest: Port,
    c: Seq<char>,
    g: Game,
    s: u64,
    p2: Prompt,
    g2: Game,
    s2: u64,
    out: Seq<char>,
)
    requires
        fight_keyed(battle, dest, c, g, s, p2, g2, s2, out),
    ensures
        c == "F"@ ==> exists|b2: Battle, r: (RoundReport, Option<BattleResult>)|
            #[trigger] Battle::fought(battle, g, s, b2, g2, s2, r),
        c == "R"@ ==> exists|b2: Battle, r: (RoundReport, Option<BattleResult>)|
            #[trigger] Battle::ran(battle, g, s, b2, g2, s2, r),
        c == "T"@ ==> p2 is ThrowGood && g2 == g && s2 == s,
{
    lemma_keys_differ();
    if c == "F"@ {
        let (b2, r) = choose|b2: Battle, r: (RoundReport, Option<BattleResult>)|
            #[trigger] Battle::stepped(battle, Decision::Fight, g, s, b2, g2, s2, r);
        assert(Battle::fought(battle, g, s, b2, g2, s2, r));
    } else if c == "R"@ {
        let (b2, r) = choose|b2: Battle, r: (RoundReport, Option<BattleResult>)|
            #[trigger] Battle::stepped(battle, Decision::Run, g, s, b2, g2, s2, r);
        assert(Battle::ran(battle, g, s, b2, g2, s2, r));
    }
}

} // verus!
