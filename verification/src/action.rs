//! Parse and apply one typed action to a saved game: the engine of stateless play.

use vstd::prelude::*;
use crate::combat::{Battle, BattleResult, Decision, RoundReport, count32, encounter_size};
use crate::economy::same_text;
use crate::events::{Event, roll, rolled};
use crate::game::{GUN_PRICE, Game, ShipyardError, WIN_TARGET, gun_purchase, sat_add};
use crate::market::{Good, Hold, TradeError, affordable, buy_result, sell_result, total, prefix_of};
use crate::rng::{Rng, xorshift};
use crate::scan::{find_from, find_seq};
use crate::state::{Pending, Save, copy_hps, json_text, to_json};
use crate::text::{
    all_digits, decimal, is_digit, lower_words, parse_u32, parse_u32_spec, push_decimal, push_str, to_chars,
    tokens, trim, trim_chars, chars_to_string, views,
};
use crate::travel::{Port, port_numbered};

verus! {

/// A number as text.
pub open spec fn dec(n: int) -> Seq<char> {
    decimal(n as nat)
}

/// The battle a pending state describes, if any.
pub open spec fn pending_view(p: Pending) -> Option<(Seq<u32>, u32)> {
    match p {
        Pending::Command => None,
        Pending::Combat { enemies, sunk } => Some((enemies@, sunk)),
    }
}

/// The quantity argument at `i`.
pub open spec fn qty_at(args: Seq<Seq<char>>, i: int) -> Result<u32, Seq<char>> {
    if args.len() <= i {
        Err("expected a quantity"@)
    } else {
        match parse_u32_spec(args[i]) {
            Some(v) => Ok(v),
            None => Err("quantity must be a number"@),
        }
    }
}

/// The `<good> <qty>` arguments, from lowercased whitespace-free tokens: the first
/// names the good by a prefix of its name.
pub open spec fn good_qty(args: Seq<Seq<char>>) -> Result<(Good, u32), Seq<char>> {
    let g = if args.len() > 0 { Good::named_by(args[0]) } else { None };
    match g {
        None => Err("expected a good (opium|silk|arms|general)"@),
        Some(good) => match qty_at(args, 1) {
            Ok(q) => Ok((good, q)),
            Err(m) => Err(m),
        },
    }
}

/// The `<amount>` argument.
pub open spec fn amount_of(args: Seq<Seq<char>>) -> Result<u32, Seq<char>> {
    if args.len() == 0 {
        Err("expected an amount"@)
    } else {
        match parse_u32_spec(args[0]) {
            Some(v) => Ok(v),
            None => Err("amount must be a number"@),
        }
    }
}

/// A port's name lowercased with its spaces removed.
pub open spec fn port_key(p: Port) -> Seq<char> {
    match p {
        Port::HongKong => "hongkong"@,
        Port::Shanghai => "shanghai"@,
        Port::Nagasaki => "nagasaki"@,
        Port::Saigon => "saigon"@,
        Port::Manila => "manila"@,
        Port::Singapore => "singapore"@,
        Port::Batavia => "batavia"@,
    }
}

/// `s` with its spaces removed.
pub open spec fn without_spaces(s: Seq<char>) -> Seq<char>
    decreases s.len(),
{
    if s.len() == 0 {
        s
    } else if s.last() == ' ' {
        without_spaces(s.drop_last())
    } else {
        without_spaces(s.drop_last()).push(s.last())
    }
}

/// The first port, in menu order from number `n`, whose key starts with `needle`.
pub open spec fn port_by_prefix(needle: Seq<char>, n: int) -> Option<Port>
    decreases 8 - n,
{
    if n < 1 || n > 7 {
        None
    } else if prefix_of(needle, port_key(port_numbered(n))) {
        Some(port_numbered(n))
    } else {
        port_by_prefix(needle, n + 1)
    }
}

/// The `<port>` argument: a menu number, or a prefix of a port's name (spaces ignored).
pub open spec fn port_arg(args: Seq<Seq<char>>) -> Result<Port, Seq<char>> {
    if args.len() == 0 {
        Err("expected a port name or number"@)
    } else {
        match parse_u32_spec(args[0]) {
            Some(n) => if 1 <= n <= 7 {
                Ok(port_numbered(n as int))
            } else {
                Err("no port number "@ + dec(n as int))
            },
            None => match port_by_prefix(without_spaces(args[0]), 1) {
                Some(p) => Ok(p),
                None => Err("unknown port '"@ + args[0] + "'"@),
            },
        }
    }
}

/// How a refused trade is described.
pub open spec fn trade_error_text(e: TradeError) -> Seq<char> {
    match e {
        TradeError::NotEnoughCash { affordable } => "NotEnoughCash { affordable: "@ + dec(affordable as int) + " }"@,
        TradeError::NotEnoughHold { space } => "NotEnoughHold { space: "@ + dec(space as int) + " }"@,
        TradeError::NotEnoughGoods { held } => "NotEnoughGoods { held: "@ + dec(held as int) + " }"@,
    }
}

/// How a refused cannon purchase is described.
pub open spec fn shipyard_text(e: ShipyardError) -> Seq<char> {
    match e {
        ShipyardError::NotEnoughCash { affordable } => "cash covers only "@ + dec(affordable as int),
        ShipyardError::NotEnoughHold { room } => "hold space for only "@ + dec(room as int),
    }
}

/// The note an arrival event adds to the travel message.
pub open spec fn event_note(e: Event) -> Seq<char> {
    match e {
        Event::Quiet => Seq::empty(),
        Event::PriceSpike { good, new_price } => good.title() + " spiked to "@ + dec(new_price as int) + "!"@,
        Event::PriceDrop { good, new_price } => good.title() + " crashed to "@ + dec(new_price as int) + "!"@,
        Event::LiYuenExtortion { taken } => "Li Yuen took "@ + dec(taken as int) + " in tribute."@,
        Event::Pirates(_) => "Pirates!"@,
    }
}

/// What a trip to `dest` that met event `e` leaves pending, and its message.
pub open spec fn travel_outcome(dest: Port, e: Event) -> (Option<(Seq<u32>, u32)>, Seq<char>) {
    let arrived = "Arrived at "@ + dest.title() + "."@;
    match e {
        Event::Pirates(b) => (
            Some((b.ships(), b.tally())),
            "Arrived at "@ + dest.title() + ". PIRATES! "@ + dec(count32(b.ships().len()) as int)
                + " ships attack. (fight/run/throw)"@,
        ),
        _ => (None, if event_note(e).len() == 0 { arrived } else { event_note(e) + " "@ + arrived }),
    }
}

/// How one combat round is narrated.
pub open spec fn round_text(r: RoundReport) -> Seq<char> {
    match r {
        RoundReport::Fought { hits, sunk_now, damage_taken } => "Fired: "@ + dec(hits as int) + " hits, "@
            + dec(sunk_now as int) + " sunk, took "@ + dec(damage_taken as int) + " damage."@,
        RoundReport::Ran { escaped, damage_taken } => if escaped {
            "Broke for open water."@
        } else {
            "Failed to escape, took "@ + dec(damage_taken as int) + " damage."@
        },
        RoundReport::Threw { accepted, jettisoned } => if accepted {
            "Threw "@ + dec(jettisoned as int) + " units \u{2014} they took the bait."@
        } else {
            "Threw "@ + dec(jettisoned as int) + " units \u{2014} they keep coming."@
        },
    }
}

/// How a battle's end is announced.
pub open spec fn result_text(r: BattleResult) -> Seq<char> {
    match r {
        BattleResult::Victory { sunk } => "Victory! Sank all "@ + dec(sunk as int) + " ships."@,
        BattleResult::Escaped => "Escaped into the fog."@,
        BattleResult::Bribed => "Pirates took the cargo and left."@,
        BattleResult::Sunk => "Your ship was sunk."@,
    }
}

/// What a combat round ending in battle `b2` with report `r` leaves pending, and its
/// message.
pub open spec fn combat_outcome(b2: Battle, r: (RoundReport, Option<BattleResult>)) -> (
    Option<(Seq<u32>, u32)>,
    Seq<char>,
) {
    match r.1 {
        Some(x) => (None, round_text(r.0) + " "@ + result_text(x)),
        None => (Some((b2.ships(), b2.tally())), round_text(r.0)),
    }
}

/// "unknown command 'v'. Valid: ..."
pub open spec fn unknown_command_msg(verb: Seq<char>) -> Seq<char> {
    "unknown command '"@ + verb
        + "'. Valid: buy sell travel deposit withdraw pay borrow store repair retire"@
}

/// "in combat — valid actions are ... (got 'v')"
pub open spec fn in_combat_msg(verb: Seq<char>) -> Seq<char> {
    "in combat \u{2014} valid actions are fight, run, throw <good> <qty> (got '"@ + verb + "')"@
}

/// A command `toks` applied to game `g` with generator state `s` ends in game `g2`,
/// state `s2` and `out`: what is then pending and the message, or the error. Every
/// error is found before anything changes, so it leaves the game and the generator
/// as they were.
pub open spec fn command_applied(
    g: Game,
    s: u64,
    toks: Seq<Seq<char>>,
    g2: Game,
    s2: u64,
    out: Result<(Option<(Seq<u32>, u32)>, Seq<char>), Seq<char>>,
) -> bool {
    &&& out is Err ==> g2 == g && s2 == s
    &&& command_resolved(g, s, toks, g2, s2, out)
}

/// What a command does on each of its branches: the pending state and message it
/// ends in, or the error it gives.
pub open spec fn command_resolved(
    g: Game,
    s: u64,
    toks: Seq<Seq<char>>,
    g2: Game,
    s2: u64,
    out: Result<(Option<(Seq<u32>, u32)>, Seq<char>), Seq<char>>,
) -> bool {
    if toks.len() == 0 {
        out == Err::<(Option<(Seq<u32>, u32)>, Seq<char>), Seq<char>>("empty action"@)
    } else {
        let verb = toks[0];
        let args = toks.skip(1);
        if verb == "buy"@ {
            if args.len() > 0 && args[0] == "guns"@ {
                match qty_at(args, 1) {
                    Err(m) => out == Err::<(Option<(Seq<u32>, u32)>, Seq<char>), Seq<char>>(m),
                    Ok(q) => {
                        let r = gun_purchase(g.cash, (g.hold.cap() - total(g.hold.cargo())) as u32, q);
                        match r {
                            Err(e) => out == Err::<(Option<(Seq<u32>, u32)>, Seq<char>), Seq<char>>(
                                "cannot buy guns: "@ + shipyard_text(e),
                            ),
                            Ok(cost) => {
                                &&& Game::armed(g, q, g2, r)
                                &&& s2 == s
                                &&& out == Ok::<(Option<(Seq<u32>, u32)>, Seq<char>), Seq<char>>(
                                    (
                                        None,
                                        "Bought "@ + dec(q as int) + " guns for "@ + dec(cost as int)
                                            + ". Now "@ + dec(g2.guns as int) + " guns."@,
                                    ),
                                )
                            },
                        }
                    },
                }
            } else if args.len() > 0 && args[0] == "hold"@ {
                if g.location != Port::HongKong {
                    out == Err::<(Option<(Seq<u32>, u32)>, Seq<char>), Seq<char>>(
                        "the shipyard is only in Hong Kong"@,
                    )
                } else {
                    match qty_at(args, 1) {
                        Err(m) => out == Err::<(Option<(Seq<u32>, u32)>, Seq<char>), Seq<char>>(m),
                        Ok(q) => exists|r: (u32, u32)|
                            {
                                &&& Game::enlarged(g, q, g2, r)
                                &&& s2 == s
                                &&& out == Ok::<(Option<(Seq<u32>, u32)>, Seq<char>), Seq<char>>(
                                    (
                                        None,
                                        "Expanded hold by "@ + dec(r.0 as int) + " for "@ + dec(
                                            r.1 as int,
                                        ) + ". Capacity now "@ + dec(g2.hold.cap() as int) + "."@,
                                    ),
                                )
                            },
                    }
                }
            } else {
                match good_qty(args) {
                    Err(m) => out == Err::<(Option<(Seq<u32>, u32)>, Seq<char>), Seq<char>>(m),
                    Ok((good, q)) => {
                        let r = buy_result(g.market@[good.slot()], g.cash, g.hold, q);
                        match r {
                            Err(e) => out == Err::<(Option<(Seq<u32>, u32)>, Seq<char>), Seq<char>>(
                                "cannot buy: "@ + trade_error_text(e),
                            ),
                            Ok(cost) => {
                                &&& Game::bought(g, good, q, g2, r)
                                &&& s2 == s
                                &&& out == Ok::<(Option<(Seq<u32>, u32)>, Seq<char>), Seq<char>>(
                                    (
                                        None,
                                        "Bought "@ + dec(q as int) + " "@ + good.title() + " for "@
                                            + dec(cost as int) + "."@,
                                    ),
                                )
                            },
                        }
                    },
                }
            }
        } else if verb == "repair"@ {
            if g.location != Port::HongKong {
                out == Err::<(Option<(Seq<u32>, u32)>, Seq<char>), Seq<char>>(
                    "McHenry's shipyard is only in Hong Kong"@,
                )
            } else {
                match amount_of(args) {
                    Err(m) => out == Err::<(Option<(Seq<u32>, u32)>, Seq<char>), Seq<char>>(m),
                    Ok(a) => exists|r: (u32, u32)|
                        {
                            &&& Game::mended(g, a, g2, r)
                            &&& s2 == s
                            &&& out == Ok::<(Option<(Seq<u32>, u32)>, Seq<char>), Seq<char>>(
                                (
                                    None,
                                    "Repaired "@ + dec(r.0 as int) + " hull for "@ + dec(r.1 as int)
                                        + ". Hull now "@ + dec(g2.health as int) + "."@,
                                ),
                            )
                        },
                }
            }
        } else if verb == "sell"@ {
            match good_qty(args) {
                Err(m) => out == Err::<(Option<(Seq<u32>, u32)>, Seq<char>), Seq<char>>(m),
                Ok((good, q)) => {
                    let r = sell_result(g.market@[good.slot()], g.hold, good, q);
                    match r {
                        Err(e) => out == Err::<(Option<(Seq<u32>, u32)>, Seq<char>), Seq<char>>(
                            "cannot sell: "@ + trade_error_text(e),
                        ),
                        Ok(p) => {
                            &&& Game::sold(g, good, q, g2, r)
                            &&& s2 == s
                            &&& out == Ok::<(Option<(Seq<u32>, u32)>, Seq<char>), Seq<char>>(
                                (
                                    None,
                                    "Sold "@ + dec(q as int) + " "@ + good.title() + " for "@ + dec(
                                        p as int,
                                    ) + "."@,
                                ),
                            )
                        },
                    }
                },
            }
        } else if verb == "deposit"@ {
            match amount_of(args) {
                Err(m) => out == Err::<(Option<(Seq<u32>, u32)>, Seq<char>), Seq<char>>(m),
                Ok(a) => exists|moved: u32|
                    {
                        &&& Game::deposited(g, a, g2, moved)
                        &&& s2 == s
                        &&& out == Ok::<(Option<(Seq<u32>, u32)>, Seq<char>), Seq<char>>(
                            (None, "Deposited "@ + dec(moved as int) + "."@),
                        )
                    },
            }
        } else if verb == "withdraw"@ {
            match amount_of(args) {
                Err(m) => out == Err::<(Option<(Seq<u32>, u32)>, Seq<char>), Seq<char>>(m),
                Ok(a) => exists|moved: u64|
                    {
                        &&& Game::withdrew(g, a as u64, g2, moved)
                        &&& s2 == s
                        &&& out == Ok::<(Option<(Seq<u32>, u32)>, Seq<char>), Seq<char>>(
                            (None, "Withdrew "@ + dec(moved as int) + "."@),
                        )
                    },
            }
        } else if verb == "pay"@ {
            match amount_of(args) {
                Err(m) => out == Err::<(Option<(Seq<u32>, u32)>, Seq<char>), Seq<char>>(m),
                Ok(a) => exists|paid: u32|
                    {
                        &&& Game::paid_down(g, a, g2, paid)
                        &&& s2 == s
                        &&& out == Ok::<(Option<(Seq<u32>, u32)>, Seq<char>), Seq<char>>(
                            (None, "Paid "@ + dec(paid as int) + " toward debt."@),
                        )
                    },
            }
        } else if verb == "borrow"@ {
            match amount_of(args) {
                Err(m) => out == Err::<(Option<(Seq<u32>, u32)>, Seq<char>), Seq<char>>(m),
                Ok(a) => {
                    &&& Game::borrowed(g, a, g2)
                    &&& s2 == s
                    &&& out == Ok::<(Option<(Seq<u32>, u32)>, Seq<char>), Seq<char>>(
                        (None, "Borrowed "@ + dec(Game::lent(g, a)) + "."@),
                    )
                },
            }
        } else if verb == "store"@ {
            match good_qty(args) {
                Err(m) => out == Err::<(Option<(Seq<u32>, u32)>, Seq<char>), Seq<char>>(m),
                Ok((good, q)) => if g.location != Port::HongKong {
                    out == Err::<(Option<(Seq<u32>, u32)>, Seq<char>), Seq<char>>(
                        "the warehouse is only in Hong Kong"@,
                    )
                } else {
                    exists|moved: u32|
                        {
                            &&& Game::stored(g, good, q, g2, moved)
                            &&& s2 == s
                            &&& out == Ok::<(Option<(Seq<u32>, u32)>, Seq<char>), Seq<char>>(
                                (
                                    None,
                                    "Stored "@ + dec(moved as int) + " "@ + good.title()
                                        + " in the warehouse."@,
                                ),
                            )
                        }
                },
            }
        } else if verb == "retire"@ {
            if g.worth() < WIN_TARGET {
                out == Err::<(Option<(Seq<u32>, u32)>, Seq<char>), Seq<char>>(
                    "net worth "@ + dec(g.worth()) + " is below the "@ + dec(WIN_TARGET as int)
                        + " target"@,
                )
            } else {
                &&& Game::retired(g, g2)
                &&& s2 == s
                &&& out == Ok::<(Option<(Seq<u32>, u32)>, Seq<char>), Seq<char>>(
                    (None, "You retire a legend of the China Seas!"@),
                )
            }
        } else if verb == "travel"@ {
            match port_arg(args) {
                Err(m) => out == Err::<(Option<(Seq<u32>, u32)>, Seq<char>), Seq<char>>(m),
                Ok(dest) => if dest == g.location {
                    out == Err::<(Option<(Seq<u32>, u32)>, Seq<char>), Seq<char>>(
                        "you are already there"@,
                    )
                } else {
                    exists|g1: Game, s1: u64, e: Event|
                        {
                            &&& Game::traveled(g, s, dest, g1, s1, dest)
                            &&& rolled(g1, s1, g2, s2, e)
                            &&& out == Ok::<(Option<(Seq<u32>, u32)>, Seq<char>), Seq<char>>(
                                travel_outcome(dest, e),
                            )
                        }
                },
            }
        } else {
            out == Err::<(Option<(Seq<u32>, u32)>, Seq<char>), Seq<char>>(unknown_command_msg(verb))
        }
    }
}

/// The decision a combat command names, or the error it gives.
pub open spec fn decision_of(toks: Seq<Seq<char>>) -> Result<Decision, Seq<char>> {
    if toks.len() == 0 {
        Err("empty action"@)
    } else if toks[0] == "fight"@ {
        Ok(Decision::Fight)
    } else if toks[0] == "run"@ {
        Ok(Decision::Run)
    } else if toks[0] == "throw"@ {
        match good_qty(toks.skip(1)) {
            Ok((good, qty)) => Ok(Decision::Throw { good, qty }),
            Err(m) => Err(m),
        }
    } else {
        Err(in_combat_msg(toks[0]))
    }
}

/// A combat command `toks` applied mid-battle (hull points `hp`, `sunk` so far). A
/// command that names no decision is refused and leaves the game and the generator
/// as they were.
pub open spec fn combat_applied(
    hp: Seq<u32>,
    sunk: u32,
    g: Game,
    s: u64,
    toks: Seq<Seq<char>>,
    g2: Game,
    s2: u64,
    out: Result<(Option<(Seq<u32>, u32)>, Seq<char>), Seq<char>>,
) -> bool {
    match decision_of(toks) {
        Err(m) => out == Err::<(Option<(Seq<u32>, u32)>, Seq<char>), Seq<char>>(m) && g2 == g && s2 == s,
        Ok(d) => exists|b: Battle, b2: Battle, r: (RoundReport, Option<BattleResult>)|
            {
                &&& b.ships() == hp
                &&& b.tally() == sunk
                &&& Battle::stepped(b, d, g, s, b2, g2, s2, r)
                &&& out == Ok::<(Option<(Seq<u32>, u32)>, Seq<char>), Seq<char>>(combat_outcome(b2, r))
            },
    }
}

/// The first line of `t[i..]` holding `p`, `cur` being the line begun; empty if none.
pub open spec fn line_with(t: Seq<char>, p: Seq<char>, i: int, cur: Seq<char>) -> Seq<char>
    decreases t.len() - i,
{
    if i < 0 || i >= t.len() {
        if find_from(cur, p, 0) is Some {
            cur
        } else {
            Seq::empty()
        }
    } else if t[i] == '\n' {
        if find_from(cur, p, 0) is Some {
            cur
        } else {
            line_with(t, p, i + 1, Seq::empty())
        }
    } else {
        line_with(t, p, i + 1, cur.push(t[i]))
    }
}

/// The refusal given once the game is over: it quotes the save's outcome line.
pub open spec fn over_msg(save: Save) -> Seq<char> {
    "game is over ("@ + trim(line_with(json_text(save), "outcome"@, 0, Seq::empty()))
        + "). Start a new game."@
}

/// One way `action` can resolve on `save`: the command (or combat step) it names
/// takes the game to `g2` and the generator to `s2` with outcome `out`, and `r` reports
/// that outcome.
pub open spec fn resolves_via(
    save: Save,
    toks: Seq<Seq<char>>,
    g2: Game,
    s2: u64,
    out: Result<(Option<(Seq<u32>, u32)>, Seq<char>), Seq<char>>,
    r: Result<Save, String>,
) -> bool {
    &&& match save.pending {
        Pending::Command => command_applied(save.game, save.rng_state, toks, g2, s2, out),
        Pending::Combat { enemies, sunk } => combat_applied(
            enemies@,
            sunk,
            save.game,
            save.rng_state,
            toks,
            g2,
            s2,
            out,
        ),
    }
    &&& match out {
        Err(m) => r matches Err(e) && e@ == m,
        Ok((p, msg)) => r matches Ok(sv) && sv.game == g2 && sv.rng_state == s2 && pending_view(
            sv.pending,
        ) == p && sv.last_event@ == msg,
    }
}

/// The tokens `toks` applied to `save` give `r`: a finished game refuses every action;
/// otherwise the tokens resolve as a command or a combat step.
pub open spec fn applied_tokens(save: Save, toks: Seq<Seq<char>>, r: Result<Save, String>) -> bool {
    if save.game.outcome is Some {
        r matches Err(e) && e@ == over_msg(save)
    } else {
        exists|g2: Game, s2: u64, out: Result<(Option<(Seq<u32>, u32)>, Seq<char>), Seq<char>>|
            #[trigger] resolves_via(save, toks, g2, s2, out, r)
    }
}

/// `action` applied to `save` gives `r`: its lowercased words applied.
pub open spec fn applied(save: Save, action: Seq<char>, r: Result<Save, String>) -> bool {
    applied_tokens(save, lower_words(action), r)
}

/// Whether command `toks` on `g` comes to weigh the hold's free space, which only a
/// hold within its capacity has: a purchase of guns or goods that the cash covers.
pub open spec fn weighs_free_space(g: Game, toks: Seq<Seq<char>>) -> bool {
    &&& toks.len() > 0
    &&& toks[0] == "buy"@
    &&& {
        let args = toks.skip(1);
        if args.len() > 0 && args[0] == "guns"@ {
            qty_at(args, 1) matches Ok(q) && q <= g.cash / GUN_PRICE
        } else if args.len() > 0 && args[0] == "hold"@ {
            false
        } else {
            good_qty(args) matches Ok(gq) && gq.1 <= affordable(g.cash, g.market@[gq.0.slot()], gq.1)
        }
    }
}

/// Whether tokens `toks` applied to `save` come to weigh the hold's free space.
pub open spec fn save_weighs_free_space(save: Save, toks: Seq<Seq<char>>) -> bool {
    &&& save.game.outcome is None
    &&& save.pending is Command
    &&& weighs_free_space(save.game, toks)
}

/// An executable outcome as its specified form.
pub open spec fn out_view(r: Result<(Pending, Vec<char>), Vec<char>>) -> Result<
    (Option<(Seq<u32>, u32)>, Seq<char>),
    Seq<char>,
> {
    match r {
        Ok((p, m)) => Ok((pending_view(p), m@)),
        Err(e) => Err(e@),
    }
}

/// Append `what` to a message.
fn append_text(m: &mut Vec<char>, what: &str)
    ensures
        final(m)@ == old(m)@ + what@,
{
    push_str(m, what);
}

/// Append a number to a message.
fn append_num(m: &mut Vec<char>, n: u64)
    ensures
        final(m)@ == old(m)@ + dec(n as int),
{
    push_decimal(m, n);
}

/// `trade_error_text`, built.
fn trade_error_words(e: TradeError) -> (m: Vec<char>)
    ensures
        m@ == trade_error_text(e),
{
    match e {
        TradeError::NotEnoughCash { affordable } => {
            let mut m = to_chars("NotEnoughCash { affordable: ");
            append_num(&mut m, affordable as u64);
            append_text(&mut m, " }");
            m
        },
        TradeError::NotEnoughHold { space } => {
            let mut m = to_chars("NotEnoughHold { space: ");
            append_num(&mut m, space as u64);
            append_text(&mut m, " }");
            m
        },
        TradeError::NotEnoughGoods { held } => {
            let mut m = to_chars("NotEnoughGoods { held: ");
            append_num(&mut m, held as u64);
            append_text(&mut m, " }");
            m
        },
    }
}

/// `shipyard_text`, built.
fn shipyard_words(e: ShipyardError) -> (m: Vec<char>)
    ensures
        m@ == shipyard_text(e),
{
    match e {
        ShipyardError::NotEnoughCash { affordable } => {
            let mut m = to_chars("cash covers only ");
            append_num(&mut m, affordable as u64);
            m
        },
        ShipyardError::NotEnoughHold { room } => {
            let mut m = to_chars("hold space for only ");
            append_num(&mut m, room as u64);
            m
        },
    }
}

/// `qty_at`, computed over the tokens.
fn qty_arg(t: &Vec<Vec<char>>, i: usize) -> (r: Result<u32, Vec<char>>)
    requires
        i >= 1,
        t@.len() >= 1,
    ensures
        match qty_at(views(t@).skip(1), i - 1) {
            Ok(v) => r == Ok::<u32, Vec<char>>(v),
            Err(m) => r matches Err(e) && e@ == m,
        },
{
    proof {
        assert(views(t@).skip(1).len() == t@.len() - 1);
    }
    if t.len() <= i {
        return Err(to_chars("expected a quantity"));
    }
    proof {
        assert(views(t@).skip(1)[i - 1] == t@[i as int]@);
    }
    match parse_u32(&t[i]) {
        Some(v) => Ok(v),
        None => Err(to_chars("quantity must be a number")),
    }
}

/// `good_qty`, computed over the tokens after the verb.
fn good_and_qty(t: &Vec<Vec<char>>) -> (r: Result<(Good, u32), Vec<char>>)
    requires
        t@.len() >= 1,
    ensures
        match good_qty(views(t@).skip(1)) {
            Ok(v) => r == Ok::<(Good, u32), Vec<char>>(v),
            Err(m) => r matches Err(e) && e@ == m,
        },
{
    let ghost args = views(t@).skip(1);
    let good = if t.len() > 1 {
        proof {
            assert(args[0] == t@[1]@);
        }
        Good::from_word(chars_to_string(&t[1]).as_str())
    } else {
        None
    };
    match good {
        None => Err(to_chars("expected a good (opium|silk|arms|general)")),
        Some(g) => match qty_arg(t, 2) {
            Ok(q) => Ok((g, q)),
            Err(m) => Err(m),
        },
    }
}

/// `amount_of`, computed over the tokens after the verb.
fn parse_amount(t: &Vec<Vec<char>>) -> (r: Result<u32, Vec<char>>)
    requires
        t@.len() >= 1,
    ensures
        match amount_of(views(t@).skip(1)) {
            Ok(v) => r == Ok::<u32, Vec<char>>(v),
            Err(m) => r matches Err(e) && e@ == m,
        },
{
    if t.len() < 2 {
        return Err(to_chars("expected an amount"));
    }
    proof {
        assert(views(t@).skip(1)[0] == t@[1]@);
    }
    match parse_u32(&t[1]) {
        Some(v) => Ok(v),
        None => Err(to_chars("amount must be a number")),
    }
}

/// `without_spaces`, computed.
fn strip_spaces(s: &Vec<char>) -> (r: Vec<char>)
    ensures
        r@ == without_spaces(s@),
{
    let mut r: Vec<char> = Vec::new();
    let mut i: usize = 0;
    while i < s.len()
        invariant
            i <= s@.len(),
            r@ == without_spaces(s@.take(i as int)),
        decreases s@.len() - i,
    {
        proof {
            assert(s@.take(i as int + 1).drop_last() == s@.take(i as int));
        }
        if s[i] != ' ' {
            r.push(s[i]);
        }
        i = i + 1;
    }
    assert(s@.take(i as int) == s@);
    r
}

/// A port's lowercase, space-free key.
fn port_key_of(p: Port) -> (k: &'static str)
    ensures
        k@ == port_key(p),
{
    match p {
        Port::HongKong => "hongkong",
        Port::Shanghai => "shanghai",
        Port::Nagasaki => "nagasaki",
        Port::Saigon => "saigon",
        Port::Manila => "manila",
        Port::Singapore => "singapore",
        Port::Batavia => "batavia",
    }
}

/// Whether `w` is a prefix of the text `name`.
fn starts_text(w: &Vec<char>, name: &str) -> (b: bool)
    ensures
        b == prefix_of(w@, name@),
{
    let n = to_chars(name);
    if w.len() > n.len() {
        return false;
    }
    let mut i: usize = 0;
    while i < w.len()
        invariant
            w@.len() <= n@.len(),
            n@ == name@,
            i <= w@.len(),
            forall|k: int| 0 <= k < i ==> w@[k] == n@[k],
        decreases w@.len() - i,
    {
        if w[i] != n[i] {
            assert(n@.take(w@.len() as int)[i as int] != w@[i as int]);
            return false;
        }
        i = i + 1;
    }
    assert(n@.take(w@.len() as int) == w@);
    true
}

/// `port_arg`, computed over the tokens after the verb.
fn parse_port(t: &Vec<Vec<char>>) -> (r: Result<Port, Vec<char>>)
    requires
        t@.len() >= 1,
    ensures
        match port_arg(views(t@).skip(1)) {
            Ok(v) => r == Ok::<Port, Vec<char>>(v),
            Err(m) => r matches Err(e) && e@ == m,
        },
{
    if t.len() < 2 {
        return Err(to_chars("expected a port name or number"));
    }
    let arg = &t[1];
    proof {
        assert(views(t@).skip(1)[0] == t@[1]@);
    }
    if let Some(n) = parse_u32(arg) {
        return match Port::from_menu_number(n) {
            Some(p) => Ok(p),
            None => {
                let mut m = to_chars("no port number ");
                append_num(&mut m, n as u64);
                Err(m)
            },
        };
    }
    let needle = strip_spaces(arg);
    let mut k: u32 = 1;
    while k <= 7
        invariant
            1 <= k <= 8,
            port_by_prefix(needle@, 1) == port_by_prefix(needle@, k as int),
            t@.len() >= 2,
            views(t@).skip(1)[0] == arg@,
            needle@ == without_spaces(arg@),
            parse_u32_spec(arg@) is None,
        decreases 8 - k,
    {
        let p = Port::from_menu_number(k).unwrap();
        if starts_text(&needle, port_key_of(p)) {
            return Ok(p);
        }
        k = k + 1;
    }
    let mut m = to_chars("unknown port '");
    m.extend_from_slice(arg.as_slice());
    append_text(&mut m, "'");
    Err(m)
}

/// `event_note`, built.
fn describe_event(e: &Event) -> (m: Vec<char>)
    ensures
        m@ == event_note(*e),
{
    match e {
        Event::Quiet => Vec::new(),
        Event::PriceSpike { good, new_price } => {
            let mut m = to_chars(good.name());
            append_text(&mut m, " spiked to ");
            append_num(&mut m, *new_price as u64);
            append_text(&mut m, "!");
            m
        },
        Event::PriceDrop { good, new_price } => {
            let mut m = to_chars(good.name());
            append_text(&mut m, " crashed to ");
            append_num(&mut m, *new_price as u64);
            append_text(&mut m, "!");
            m
        },
        Event::LiYuenExtortion { taken } => {
            let mut m = to_chars("Li Yuen took ");
            append_num(&mut m, *taken as u64);
            append_text(&mut m, " in tribute.");
            m
        },
        Event::Pirates(_) => to_chars("Pirates!"),
    }
}

/// `round_text`, built.
fn describe_round(r: RoundReport) -> (m: Vec<char>)
    ensures
        m@ == round_text(r),
{
    match r {
        RoundReport::Fought { hits, sunk_now, damage_taken } => {
            let mut m = to_chars("Fired: ");
            append_num(&mut m, hits as u64);
            append_text(&mut m, " hits, ");
            append_num(&mut m, sunk_now as u64);
            append_text(&mut m, " sunk, took ");
            append_num(&mut m, damage_taken as u64);
            append_text(&mut m, " damage.");
            m
        },
        RoundReport::Ran { escaped, damage_taken } => {
            if escaped {
                to_chars("Broke for open water.")
            } else {
                let mut m = to_chars("Failed to escape, took ");
                append_num(&mut m, damage_taken as u64);
                append_text(&mut m, " damage.");
                m
            }
        },
        RoundReport::Threw { accepted, jettisoned } => {
            let mut m = to_chars("Threw ");
            append_num(&mut m, jettisoned as u64);
            if accepted {
                append_text(&mut m, " units \u{2014} they took the bait.");
            } else {
                append_text(&mut m, " units \u{2014} they keep coming.");
            }
            m
        },
    }
}

/// `result_text`, built.
fn describe_result(r: BattleResult) -> (m: Vec<char>)
    ensures
        m@ == result_text(r),
{
    match r {
        BattleResult::Victory { sunk } => {
            let mut m = to_chars("Victory! Sank all ");
            append_num(&mut m, sunk as u64);
            append_text(&mut m, " ships.");
            m
        },
        BattleResult::Escaped => to_chars("Escaped into the fog."),
        BattleResult::Bribed => to_chars("Pirates took the cargo and left."),
        BattleResult::Sunk => to_chars("Your ship was sunk."),
    }
}

/// Travel: dock at `dest` first (interest, fresh market), then roll the arrival
/// event there. Pirates leave a battle pending at the destination.
pub fn do_travel(game: &mut Game, rng: &mut Rng, dest: Port) -> (r: (Pending, Vec<char>))
    ensures
        exists|g1: Game, s1: u64, e: Event|
            {
                &&& Game::traveled(*old(game), old(rng)@, dest, g1, s1, dest)
                &&& rolled(g1, s1, *final(game), final(rng)@, e)
                &&& (pending_view(r.0), r.1@) == travel_outcome(dest, e)
            },
{
    game.travel_to(dest, rng);
    let ghost g1 = *game;
    let ghost s1 = rng@;
    let event = roll(game, rng);
    let ghost e0 = event;
    match event {
        Event::Pirates(battle) => {
            let n = battle.enemies_remaining();
            let mut m = to_chars("Arrived at ");
            append_text(&mut m, dest.name());
            append_text(&mut m, ". PIRATES! ");
            append_num(&mut m, n as u64);
            append_text(&mut m, " ships attack. (fight/run/throw)");
            let r = (Pending::Combat { enemies: copy_hps(battle.enemy_hps()), sunk: battle.sunk() }, m);
            assert((pending_view(r.0), r.1@) == travel_outcome(dest, e0));
            r
        },
        other => {
            let note = describe_event(&other);
            let mut msg: Vec<char> = Vec::new();
            if note.len() > 0 {
                msg = note;
                append_text(&mut msg, " ");
            }
            append_text(&mut msg, "Arrived at ");
            append_text(&mut msg, dest.name());
            append_text(&mut msg, ".");
            proof {
                if event_note(e0).len() == 0 {
                    assert(msg@ == "Arrived at "@ + dest.title() + "."@);
                }
            }
            let r = (Pending::Command, msg);
            assert((pending_view(r.0), r.1@) == travel_outcome(dest, e0));
            r
        },
    }
}

/// Whether the token after the verb is `w`.
fn second_word_is(t: &Vec<Vec<char>>, w: &str) -> (b: bool)
    requires
        t@.len() >= 1,
    ensures
        b == (views(t@).skip(1).len() > 0 && views(t@).skip(1)[0] == w@),
{
    proof {
        if t@.len() > 1 {
            assert(views(t@).skip(1)[0] == t@[1]@);
        }
    }
    t.len() > 1 && same_text(&t[1], w)
}

/// Apply a command (the game awaits one) given its lowercased tokens.
pub fn apply_command(game: &mut Game, rng: &mut Rng, t: &Vec<Vec<char>>) -> (r: Result<(Pending, Vec<char>), Vec<char>>)
    requires
        old(game).wf() || !weighs_free_space(*old(game), views(t@)),
    ensures
        command_applied(*old(game), old(rng)@, views(t@), *final(game), final(rng)@, out_view(r)),
{
    if t.len() == 0 {
        return Err(to_chars("empty action"));
    }
    let ghost g = *game;
    let ghost s = rng@;
    let ghost toks = views(t@);
    let ghost args = toks.skip(1);
    let verb = &t[0];
    assert(toks[0] == verb@);
    if same_text(verb, "buy") {
        if second_word_is(t, "guns") {
            let qty = match qty_arg(t, 2) {
                Err(m) => return Err(m),
                Ok(q) => q,
            };
            let cost = match game.buy_guns(qty) {
                Err(e) => {
                    proof {
                        Hold::lemma_view_eq(game.hold, g.hold);
                    }
                    let mut m = to_chars("cannot buy guns: ");
                    m.append(&mut shipyard_words(e));
                    return Err(m);
                },
                Ok(c) => c,
            };
            let mut m = to_chars("Bought ");
            append_num(&mut m, qty as u64);
            append_text(&mut m, " guns for ");
            append_num(&mut m, cost as u64);
            append_text(&mut m, ". Now ");
            append_num(&mut m, game.guns as u64);
            append_text(&mut m, " guns.");
            return Ok((Pending::Command, m));
        } else if second_word_is(t, "hold") {
            if game.location != Port::HOME {
                return Err(to_chars("the shipyard is only in Hong Kong"));
            }
            let qty = match qty_arg(t, 2) {
                Err(m) => return Err(m),
                Ok(q) => q,
            };
            let (added, spent) = game.expand_hold(qty);
            let mut m = to_chars("Expanded hold by ");
            append_num(&mut m, added as u64);
            append_text(&mut m, " for ");
            append_num(&mut m, spent as u64);
            append_text(&mut m, ". Capacity now ");
            append_num(&mut m, game.hold.capacity() as u64);
            append_text(&mut m, ".");
            let r = Ok((Pending::Command, m));
            assert(Game::enlarged(g, qty, *game, (added, spent)));
            return r;
        } else {
            let (good, qty) = match good_and_qty(t) {
                Err(m) => return Err(m),
                Ok(x) => x,
            };
            let cost = match game.buy(good, qty) {
                Err(e) => {
                    proof {
                        Hold::lemma_view_eq(game.hold, g.hold);
                    }
                    let mut m = to_chars("cannot buy: ");
                    m.append(&mut trade_error_words(e));
                    return Err(m);
                },
                Ok(c) => c,
            };
            let mut m = to_chars("Bought ");
            append_num(&mut m, qty as u64);
            append_text(&mut m, " ");
            append_text(&mut m, good.name());
            append_text(&mut m, " for ");
            append_num(&mut m, cost as u64);
            append_text(&mut m, ".");
            return Ok((Pending::Command, m));
        }
    }
    if same_text(verb, "repair") {
        if game.location != Port::HOME {
            return Err(to_chars("McHenry's shipyard is only in Hong Kong"));
        }
        let amt = match parse_amount(t) {
            Err(m) => return Err(m),
            Ok(a) => a,
        };
        let (points, spent) = game.repair_hull(amt);
        let mut m = to_chars("Repaired ");
        append_num(&mut m, points as u64);
        append_text(&mut m, " hull for ");
        append_num(&mut m, spent as u64);
        append_text(&mut m, ". Hull now ");
        append_num(&mut m, game.health as u64);
        append_text(&mut m, ".");
        assert(Game::mended(g, amt, *game, (points, spent)));
        return Ok((Pending::Command, m));
    }
    if same_text(verb, "sell") {
        let (good, qty) = match good_and_qty(t) {
            Err(m) => return Err(m),
            Ok(x) => x,
        };
        let proceeds = match game.sell(good, qty) {
            Err(e) => {
                proof {
                    Hold::lemma_view_eq(game.hold, g.hold);
                }
                let mut m = to_chars("cannot sell: ");
                m.append(&mut trade_error_words(e));
                return Err(m);
            },
            Ok(p) => p,
        };
        let mut m = to_chars("Sold ");
        append_num(&mut m, qty as u64);
        append_text(&mut m, " ");
        append_text(&mut m, good.name());
        append_text(&mut m, " for ");
        append_num(&mut m, proceeds as u64);
        append_text(&mut m, ".");
        return Ok((Pending::Command, m));
    }
    if same_text(verb, "deposit") {
        let amt = match parse_amount(t) {
            Err(m) => return Err(m),
            Ok(a) => a,
        };
        let moved = game.deposit(amt);
        let mut m = to_chars("Deposited ");
        append_num(&mut m, moved as u64);
        append_text(&mut m, ".");
        assert(Game::deposited(g, amt, *game, moved));
        return Ok((Pending::Command, m));
    }
    if same_text(verb, "withdraw") {
        let amt = match parse_amount(t) {
            Err(m) => return Err(m),
            Ok(a) => a,
        };
        let moved = game.withdraw(amt as u64);
        let mut m = to_chars("Withdrew ");
        append_num(&mut m, moved);
        append_text(&mut m, ".");
        assert(Game::withdrew(g, amt as u64, *game, moved));
        return Ok((Pending::Command, m));
    }
    if same_text(verb, "pay") {
        let amt = match parse_amount(t) {
            Err(m) => return Err(m),
            Ok(a) => a,
        };
        let paid = game.pay_debt(amt);
        let mut m = to_chars("Paid ");
        append_num(&mut m, paid as u64);
        append_text(&mut m, " toward debt.");
        assert(Game::paid_down(g, amt, *game, paid));
        return Ok((Pending::Command, m));
    }
    if same_text(verb, "borrow") {
        let amt = match parse_amount(t) {
            Err(m) => return Err(m),
            Ok(a) => a,
        };
        let cash_before = game.cash;
        game.borrow(amt);
        let lent = game.cash - cash_before;
        let mut m = to_chars("Borrowed ");
        append_num(&mut m, lent as u64);
        append_text(&mut m, ".");
        return Ok((Pending::Command, m));
    }
    if same_text(verb, "store") {
        let (good, qty) = match good_and_qty(t) {
            Err(m) => return Err(m),
            Ok(x) => x,
        };
        if game.location != Port::HOME {
            return Err(to_chars("the warehouse is only in Hong Kong"));
        }
        let moved = game.store(good, qty);
        let mut m = to_chars("Stored ");
        append_num(&mut m, moved as u64);
        append_text(&mut m, " ");
        append_text(&mut m, good.name());
        append_text(&mut m, " in the warehouse.");
        assert(Game::stored(g, good, qty, *game, moved));
        return Ok((Pending::Command, m));
    }
    if same_text(verb, "retire") {
        if !game.can_retire() {
            let mut m = to_chars("net worth ");
            append_num(&mut m, game.net_worth());
            append_text(&mut m, " is below the ");
            append_num(&mut m, WIN_TARGET);
            append_text(&mut m, " target");
            return Err(m);
        }
        game.retire();
        return Ok((Pending::Command, to_chars("You retire a legend of the China Seas!")));
    }
    if same_text(verb, "travel") {
        let dest = match parse_port(t) {
            Err(m) => return Err(m),
            Ok(p) => p,
        };
        if dest == game.location {
            return Err(to_chars("you are already there"));
        }
        return Ok(do_travel(game, rng, dest));
    }
    let mut m = to_chars("unknown command '");
    let mut v = verb.clone();
    assert(v@ == verb@);
    m.append(&mut v);
    append_text(&mut m, "'. Valid: buy sell travel deposit withdraw pay borrow store repair retire");
    assert(m@ == unknown_command_msg(toks[0]));
    Err(m)
}

/// `decision_of`, computed.
fn decision_from(t: &Vec<Vec<char>>) -> (r: Result<Decision, Vec<char>>)
    ensures
        match decision_of(views(t@)) {
            Ok(d) => r == Ok::<Decision, Vec<char>>(d),
            Err(m) => r matches Err(e) && e@ == m,
        },
{
    if t.len() == 0 {
        return Err(to_chars("empty action"));
    }
    let verb = &t[0];
    assert(views(t@)[0] == verb@);
    if same_text(verb, "fight") {
        Ok(Decision::Fight)
    } else if same_text(verb, "run") {
        Ok(Decision::Run)
    } else if same_text(verb, "throw") {
        match good_and_qty(t) {
            Ok((good, qty)) => Ok(Decision::Throw { good, qty }),
            Err(m) => Err(m),
        }
    } else {
        let mut m = to_chars("in combat \u{2014} valid actions are fight, run, throw <good> <qty> (got '");
        let mut v = verb.clone();
        assert(v@ == verb@);
        m.append(&mut v);
        append_text(&mut m, "')");
        Err(m)
    }
}

/// Apply a combat command mid-battle.
pub fn apply_combat(game: &mut Game, rng: &mut Rng, mut battle: Battle, t: &Vec<Vec<char>>) -> (r: Result<
    (Pending, Vec<char>),
    Vec<char>,
>)
    ensures
        combat_applied(battle.ships(), battle.tally(), *old(game), old(rng)@, views(t@), *final(game), final(rng)@, out_view(r)),
{
    let ghost b0 = battle;
    let decision = match decision_from(t) {
        Err(m) => return Err(m),
        Ok(d) => d,
    };
    let report = battle.step(decision, game, rng);
    let round = describe_round(report.0);
    match report.1 {
        Some(res) => {
            let mut m = round;
            append_text(&mut m, " ");
            m.append(&mut describe_result(res));
            let r = Ok((Pending::Command, m));
            assert(out_view(r) == Ok::<(Option<(Seq<u32>, u32)>, Seq<char>), Seq<char>>(combat_outcome(battle, report)));
            r
        },
        None => {
            let r = Ok((Pending::Combat { enemies: copy_hps(battle.enemy_hps()), sunk: battle.sunk() }, round));
            assert(out_view(r) == Ok::<(Option<(Seq<u32>, u32)>, Seq<char>), Seq<char>>(combat_outcome(battle, report)));
            r
        },
    }
}

/// The first line of `t` that holds `p`, trimmed; empty if none.
fn line_holding(t: &Vec<char>, p: &Vec<char>) -> (r: Vec<char>)
    ensures
        r@ == trim(line_with(t@, p@, 0, Seq::empty())),
{
    let mut cur: Vec<char> = Vec::new();
    let mut i: usize = 0;
    while i < t.len()
        invariant
            i <= t@.len(),
            line_with(t@, p@, i as int, cur@) == line_with(t@, p@, 0, Seq::empty()),
        decreases t@.len() - i,
    {
        if t[i] == '\n' {
            if find_seq(&cur, p, 0).is_some() {
                return trim_chars(&cur);
            }
            cur = Vec::new();
        } else {
            cur.push(t[i]);
        }
        i = i + 1;
    }
    if find_seq(&cur, p, 0).is_some() {
        trim_chars(&cur)
    } else {
        let e: Vec<char> = Vec::new();
        assert(trim(Seq::<char>::empty()) == Seq::<char>::empty()) by {
            reveal_with_fuel(crate::text::trim_start, 1);
            reveal_with_fuel(crate::text::trim_end, 1);
        }
        e
    }
}

/// Apply one typed action to a save, returning the updated save. Errors (bad input,
/// an action the pending state does not allow, an illegal move) leave the save as it
/// was; the caller shows the message.
pub fn apply(save: &Save, action: &str) -> (r: Result<Save, String>)
    requires
        save.game.wf() || !save_weighs_free_space(*save, lower_words(action@)),
    ensures
        applied(*save, action@, r),
{
    let t = tokens(&to_chars(action));
    apply_tokens(save, &t)
}

/// Apply an action given as its lowercased, whitespace-free words to a save.
pub fn apply_tokens(save: &Save, t: &Vec<Vec<char>>) -> (r: Result<Save, String>)
    requires
        save.game.wf() || !save_weighs_free_space(*save, views(t@)),
    ensures
        applied_tokens(*save, views(t@), r),
{
    if save.game.is_over() {
        let j = to_chars(to_json(save).as_str());
        let line = line_holding(&j, &to_chars("outcome"));
        let mut m = to_chars("game is over (");
        let mut l = line;
        m.append(&mut l);
        append_text(&mut m, "). Start a new game.");
        assert(m@ == over_msg(*save));
        return Err(chars_to_string(&m));
    }
    let mut game = save.game;
    let mut rng = Rng::from_state(save.rng_state);
    let outcome = match &save.pending {
        Pending::Combat { enemies, sunk } => {
            let battle = Battle::from_parts(copy_hps(enemies.as_slice()), *sunk);
            apply_combat(&mut game, &mut rng, battle, t)
        },
        Pending::Command => apply_command(&mut game, &mut rng, t),
    };
    let ghost out = out_view(outcome);
    let r = match outcome {
        Err(m) => Err(chars_to_string(&m)),
        Ok((pending, msg)) => Ok(Save { game, rng_state: rng.state(), pending, last_event: chars_to_string(&msg) }),
    };
    assert(resolves_via(*save, views(t@), game, rng@, out, r));
    r
}


/// A voyage ordered through `step` lands: the ship is at a new port, the debt has grown
/// by its interest, and either pirates wait (one to eight ships of two hull points
/// each, none sunk yet, announced on arrival) or the message ends with the arrival; a
/// price spike or crash it reports is the price now on the new port's market.
pub proof fn law_voyage_lands(
    g: Game,
    s: u64,
    toks: Seq<Seq<char>>,
    g2: Game,
    s2: u64,
    out: Result<(Option<(Seq<u32>, u32)>, Seq<char>), Seq<char>>,
)
    requires
        command_applied(g, s, toks, g2, s2, out),
        toks.len() > 0,
        toks[0] == "travel"@,
        out is Ok,
    ensures
        g2.location != g.location,
        g2.debt == sat_add(g.debt as int, g.debt / 100 * 10, u64::MAX as int),
        (out matches Ok(pm) && match pm.0 {
            Some(b) => {
                &&& 1 <= b.0.len() <= 8
                &&& forall|i: int| 0 <= i < b.0.len() ==> #[trigger] b.0[i] == 2
                &&& b.1 == 0
                &&& pm.1 == "Arrived at "@ + g2.location.title() + ". PIRATES! "@ + dec(b.0.len() as int)
                    + " ships attack. (fight/run/throw)"@
            },
            None => {
                let arrived = "Arrived at "@ + g2.location.title() + "."@;
                &&& pm.1.len() >= arrived.len()
                &&& pm.1.skip(pm.1.len() - arrived.len()) == arrived
            },
        }),
        exists|e: Event|
            {
                &&& out == Ok::<(Option<(Seq<u32>, u32)>, Seq<char>), Seq<char>>(travel_outcome(g2.location, e))
                &&& (e matches Event::PriceSpike { good, new_price } ==> g2.market@[good.slot()] == new_price)
                &&& (e matches Event::PriceDrop { good, new_price } ==> g2.market@[good.slot()] == new_price)
            },
{
    crate::replay::lemma_verb_sigs();
    assert(crate::replay::sig4(toks[0]) == crate::replay::sig4("travel"@));
    let dest = port_arg(toks.skip(1))->Ok_0;
    assert(port_arg(toks.skip(1)) is Ok);
    assert(dest != g.location);
    assert(exists|g1: Game, s1: u64, e: Event|
        {
            &&& Game::traveled(g, s, dest, g1, s1, dest)
            &&& rolled(g1, s1, g2, s2, e)
            &&& out == Ok::<(Option<(Seq<u32>, u32)>, Seq<char>), Seq<char>>(travel_outcome(dest, e))
        });
    let (g1, s1, e) = choose|g1: Game, s1: u64, e: Event|
        {
            &&& Game::traveled(g, s, dest, g1, s1, dest)
            &&& rolled(g1, s1, g2, s2, e)
            &&& out == Ok::<(Option<(Seq<u32>, u32)>, Seq<char>), Seq<char>>(travel_outcome(dest, e))
        };
    let arrived = "Arrived at "@ + dest.title() + "."@;
    assert(g1.location == dest);
    assert(g2.location == g1.location && g2.debt == g1.debt);
    match e {
        Event::Pirates(b) => {
            let n = encounter_size(xorshift(s1), g1.guns);
            assert(1 <= n <= 8);
        },
        _ => {
            let note = event_note(e);
            if note.len() > 0 {
                assert((note + " "@ + arrived).skip((note + " "@).len() as int) == arrived);
            } else {
                assert(arrived.skip(0) == arrived);
            }
        },
    }
    lemma_rolled_prices(g1, s1, g2, s2, e);
    assert(out == Ok::<(Option<(Seq<u32>, u32)>, Seq<char>), Seq<char>>(travel_outcome(g2.location, e)));
}

/// A spike or crash rolled on arrival is the price then on the market.
proof fn lemma_rolled_prices(g: Game, s: u64, g2: Game, s2: u64, e: Event)
    requires
        rolled(g, s, g2, s2, e),
    ensures
        (e matches Event::PriceSpike { good, new_price } ==> g2.market@[good.slot()] == new_price),
        (e matches Event::PriceDrop { good, new_price } ==> g2.market@[good.slot()] == new_price),
{
    g.market.lemma_len();
    match e {
        Event::PriceSpike { good, new_price } => {
            assert(0 <= good.slot() < 4);
            assert(g2.market@ == g.market@.update(good.slot(), new_price));
        },
        Event::PriceDrop { good, new_price } => {
            assert(0 <= good.slot() < 4);
            assert(g2.market@ == g.market@.update(good.slot(), new_price));
        },
        _ => {},
    }
}


/// Every refusal comes before any change: a command or a combat step that gives an
/// error leaves the game and the generator state as they were.
pub proof fn law_errors_change_nothing(
    hp: Seq<u32>,
    sunk: u32,
    g: Game,
    s: u64,
    toks: Seq<Seq<char>>,
    g2: Game,
    s2: u64,
    out: Result<(Option<(Seq<u32>, u32)>, Seq<char>), Seq<char>>,
)
    requires
        command_applied(g, s, toks, g2, s2, out) || combat_applied(hp, sunk, g, s, toks, g2, s2, out),
        out is Err,
    ensures
        g2 == g,
        s2 == s,
{
}

/// An arrival docks first and then rolls its event there: the ship is at `dest`, the
/// debt has grown by its interest whatever the event, pirates come one to eight ships
/// of two hull points with none sunk yet, and a price spike or crash is the price then
/// on the new port's market.
pub proof fn law_arrival(g: Game, s: u64, dest: Port, g1: Game, s1: u64, g2: Game, s2: u64, e: Event)
    requires
        Game::traveled(g, s, dest, g1, s1, dest),
        rolled(g1, s1, g2, s2, e),
    ensures
        g2.location == dest,
        g2.debt == sat_add(g.debt as int, g.debt / 100 * 10, u64::MAX as int),
        (e matches Event::Pirates(b) ==> 1 <= b.ships().len() <= 8 && b.tally() == 0
            && forall|i: int| 0 <= i < b.ships().len() ==> #[trigger] b.ships()[i] == 2),
        (e matches Event::PriceSpike { good, new_price } ==> g2.market@[good.slot()] == new_price),
        (e matches Event::PriceDrop { good, new_price } ==> g2.market@[good.slot()] == new_price),
{
    lemma_rolled_prices(g1, s1, g2, s2, e);
    if e is Pirates {
        let n = encounter_size(xorshift(s1), g1.guns);
        assert(1 <= n <= 8);
    }
}


/// A letter in lower case: `A`–`Z` become `a`–`z`, anything else stays.
pub open spec fn ascii_lower(c: char) -> char {
    if 'A' <= c && c <= 'Z' {
        ((c as u32) + 32) as char
    } else {
        c
    }
}

/// A port's display name in lower case with its spaces removed: what `travel` matches.
pub open spec fn plain_name(p: Port) -> Seq<char> {
    without_spaces(p.title()).map_values(|c: char| ascii_lower(c))
}

/// Removing the spaces from text that has none leaves it as it is.
proof fn lemma_no_spaces(t: Seq<char>)
    requires
        forall|i: int| 0 <= i < t.len() ==> #[trigger] t[i] != ' ',
    ensures
        without_spaces(t) == t,
    decreases t.len(),
{
    if t.len() > 0 {
        lemma_no_spaces(t.drop_last());
        assert(t.drop_last().push(t.last()) == t);
    }
}

/// Removing spaces from two pieces of text put together.
proof fn lemma_without_spaces_concat(a: Seq<char>, b: Seq<char>)
    ensures
        without_spaces(a + b) == without_spaces(a) + without_spaces(b),
    decreases b.len(),
{
    if b.len() == 0 {
        assert(a + b == a);
        assert(without_spaces(a) + Seq::<char>::empty() == without_spaces(a));
    } else {
        lemma_without_spaces_concat(a, b.drop_last());
        assert((a + b).drop_last() == a + b.drop_last());
        assert((a + b).last() == b.last());
    }
}

/// The lowercase form of a name with no spaces, letter by letter.
proof fn lemma_lowered(t: Seq<char>, k: Seq<char>)
    requires
        forall|i: int| 0 <= i < t.len() ==> #[trigger] t[i] != ' ',
        t.len() == k.len(),
        forall|i: int| 0 <= i < t.len() ==> ascii_lower(#[trigger] t[i]) == k[i],
    ensures
        without_spaces(t).map_values(|c: char| ascii_lower(c)) == k,
{
    lemma_no_spaces(t);
    assert(t.map_values(|c: char| ascii_lower(c)) =~= k);
}

/// A port's key is its display name, lowercased and without spaces.
pub proof fn law_port_key_is_the_name(p: Port)
    ensures
        port_key(p) == plain_name(p),
{
    match p {
        Port::HongKong => {
            reveal_strlit("Hong Kong");
            reveal_strlit("hongkong");
            let a = seq!['H', 'o', 'n', 'g'];
            let b = seq!['K', 'o', 'n', 'g'];
            assert("Hong Kong"@ =~= a + (seq![' '] + b));
            lemma_without_spaces_concat(a, seq![' '] + b);
            lemma_without_spaces_concat(seq![' '], b);
            reveal_with_fuel(without_spaces, 2);
            assert(without_spaces(seq![' ']) =~= Seq::<char>::empty()) by {
                assert(seq![' '].drop_last() =~= Seq::<char>::empty());
            }
            lemma_no_spaces(a);
            lemma_no_spaces(b);
            assert(without_spaces("Hong Kong"@) =~= a + b);
            lemma_lowered(a + b, "hongkong"@);
        },
        Port::Shanghai => {
            reveal_strlit("Shanghai");
            reveal_strlit("shanghai");
            lemma_lowered("Shanghai"@, "shanghai"@);
        },
        Port::Nagasaki => {
            reveal_strlit("Nagasaki");
            reveal_strlit("nagasaki");
            lemma_lowered("Nagasaki"@, "nagasaki"@);
        },
        Port::Saigon => {
            reveal_strlit("Saigon");
            reveal_strlit("saigon");
            lemma_lowered("Saigon"@, "saigon"@);
        },
        Port::Manila => {
            reveal_strlit("Manila");
            reveal_strlit("manila");
            lemma_lowered("Manila"@, "manila"@);
        },
        Port::Singapore => {
            reveal_strlit("Singapore");
            reveal_strlit("singapore");
            lemma_lowered("Singapore"@, "singapore"@);
        },
        Port::Batavia => {
            reveal_strlit("Batavia");
            reveal_strlit("batavia");
            lemma_lowered("Batavia"@, "batavia"@);
        },
    }
}


/// Whether `a` is no prefix of `b` because they differ at `i`, or `a` is longer.
proof fn lemma_not_prefix(a: Seq<char>, b: Seq<char>, i: int)
    requires
        a.len() > b.len() || (0 <= i < a.len() && i < b.len() && a[i] != b[i]),
    ensures
        !prefix_of(a, b),
{
    if a.len() <= b.len() {
        assert(b.take(a.len() as int)[i] == b[i]);
    }
}

/// `travel` followed by a port's full name, in any case and with or without its space,
/// sails to that very port.
pub proof fn law_travel_by_name(p: Port)
    ensures
        port_arg(seq![plain_name(p)]) == Ok::<Port, Seq<char>>(p),
{
    law_port_key_is_the_name(p);
    let k = port_key(p);
    reveal_strlit("hongkong");
    reveal_strlit("shanghai");
    reveal_strlit("nagasaki");
    reveal_strlit("saigon");
    reveal_strlit("manila");
    reveal_strlit("singapore");
    reveal_strlit("batavia");
    assert(forall|i: int| 0 <= i < k.len() ==> #[trigger] k[i] != ' ' && !is_digit(k[i]) && k[i] != '+');
    lemma_no_spaces(k);
    assert(!all_digits(k)) by {
        assert(!is_digit(k[0]));
    }
    assert(k[0] != '+');
    assert(parse_u32_spec(k) is None);
    let hk = port_key(Port::HongKong);
    let sh = port_key(Port::Shanghai);
    let na = port_key(Port::Nagasaki);
    let sa = port_key(Port::Saigon);
    let ma = port_key(Port::Manila);
    let si = port_key(Port::Singapore);
    let ba = port_key(Port::Batavia);
    reveal_with_fuel(port_by_prefix, 8);
    assert(k.take(k.len() as int) =~= k);
    match p {
        Port::HongKong => {
            assert(prefix_of(k, hk));
        },
        Port::Shanghai => {
            lemma_not_prefix(k, hk, 0);
            assert(prefix_of(k, sh));
        },
        Port::Nagasaki => {
            lemma_not_prefix(k, hk, 0);
            lemma_not_prefix(k, sh, 0);
            assert(prefix_of(k, na));
        },
        Port::Saigon => {
            lemma_not_prefix(k, hk, 0);
            lemma_not_prefix(k, sh, 1);
            lemma_not_prefix(k, na, 0);
            assert(prefix_of(k, sa));
        },
        Port::Manila => {
            lemma_not_prefix(k, hk, 0);
            lemma_not_prefix(k, sh, 0);
            lemma_not_prefix(k, na, 0);
            lemma_not_prefix(k, sa, 0);
            assert(prefix_of(k, ma));
        },
        Port::Singapore => {
            lemma_not_prefix(k, hk, 0);
            lemma_not_prefix(k, sh, 1);
            lemma_not_prefix(k, na, 0);
            lemma_not_prefix(k, sa, 1);
            lemma_not_prefix(k, ma, 0);
            assert(prefix_of(k, si));
        },
        Port::Batavia => {
            lemma_not_prefix(k, hk, 0);
            lemma_not_prefix(k, sh, 0);
            lemma_not_prefix(k, na, 0);
            lemma_not_prefix(k, sa, 0);
            lemma_not_prefix(k, ma, 0);
            lemma_not_prefix(k, si, 0);
            assert(prefix_of(k, ba));
        },
    }
    assert(seq![plain_name(p)][0] == k);
}

} // verus!
