//! Why the same game, generator state and moves always play out the same: each step
//! of the turn loop is determined by what it starts from, and so is a whole play; and
//! an action applied to a save is determined by the save and the action.

use vstd::prelude::*;
use crate::combat::{Battle, law_round_determined};
use crate::events::{Event, rolled, law_roll_determined};
use crate::game::Game;
use crate::economy::{EconomyMode, bias_row};
use crate::market::roll_prices;
use crate::travel::Port;
use crate::market::{Hold, Market};
use crate::action::{applied, resolves_via, command_applied, combat_applied, pending_view};
use crate::state::Save;
use crate::run::{
    Prompt, fed, resumed, then, landed, fought_round, fighting, played, traced, opened, stepped_to,
    line_at, live,
};

verus! {

/// Whether two prompts wait for the same thing, battles judged by their ships and tally.
pub open spec fn same_prompt(p: Prompt, q: Prompt) -> bool {
    match (p, q) {
        (Prompt::Command, Prompt::Command) => true,
        (Prompt::BuyGood, Prompt::BuyGood) => true,
        (Prompt::BuyQty { good: a }, Prompt::BuyQty { good: b }) => a == b,
        (Prompt::SellGood, Prompt::SellGood) => true,
        (Prompt::SellQty { good: a }, Prompt::SellQty { good: b }) => a == b,
        (Prompt::BankAction, Prompt::BankAction) => true,
        (Prompt::BankAmount { action: a }, Prompt::BankAmount { action: b }) => a@ == b@,
        (Prompt::TravelPort, Prompt::TravelPort) => true,
        (Prompt::Fighting { battle: a, dest: d }, Prompt::Fighting { battle: b, dest: e }) => a.ships()
            == b.ships() && a.tally() == b.tally() && d == e,
        (Prompt::ThrowGood { battle: a, dest: d }, Prompt::ThrowGood { battle: b, dest: e }) => a.ships()
            == b.ships() && a.tally() == b.tally() && d == e,
        (
            Prompt::ThrowQty { battle: a, dest: d, good: x },
            Prompt::ThrowQty { battle: b, dest: e, good: y },
        ) => a.ships() == b.ships() && a.tally() == b.tally() && d == e && x == y,
        (Prompt::Over, Prompt::Over) => true,
        _ => false,
    }
}

/// The top of the loop is determined by the game.
pub proof fn lemma_resumed_determined(g: Game, p: Prompt, o: Seq<char>, q: Prompt, o2: Seq<char>)
    requires
        resumed(g, p, o),
        resumed(g, q, o2),
    ensures
        same_prompt(p, q),
        o == o2,
{
}

/// Text then the top of the loop is determined by the text and the game.
pub proof fn lemma_then_determined(o: Seq<char>, head: Seq<char>, g: Game, p: Prompt, o2: Seq<char>, q: Prompt)
    requires
        then(o, head, g, p),
        then(o2, head, g, q),
    ensures
        same_prompt(p, q),
        o == o2,
{
    lemma_resumed_determined(g, p, o.skip(head.len() as int), q, o2.skip(head.len() as int));
    assert(o =~= o.take(head.len() as int) + o.skip(head.len() as int));
    assert(o2 =~= o2.take(head.len() as int) + o2.skip(head.len() as int));
}

/// Arriving after a voyage is determined by the game and destination.
pub proof fn lemma_landed_determined(g: Game, dest: crate::travel::Port, p: Prompt, o: Seq<char>, q: Prompt, o2: Seq<char>)
    requires
        landed(g, dest, p, o),
        landed(g, dest, q, o2),
    ensures
        same_prompt(p, q),
        o == o2,
{
    if g.outcome is Some {
        lemma_resumed_determined(g, p, o, q, o2);
    } else {
        let head = "Arrived at "@ + dest.title() + ".\n"@;
        lemma_then_determined(o, head, g, p, o2, q);
    }
}

/// A combat round in the loop is determined by the battle's ships and tally, the
/// decision, the game and the generator state.
pub proof fn lemma_fought_determined(
    b: Battle,
    c: Battle,
    d: crate::combat::Decision,
    dest: crate::travel::Port,
    g: Game,
    s: u64,
    p2: Prompt,
    g2: Game,
    s2: u64,
    o: Seq<char>,
    q2: Prompt,
    h2: Game,
    t2: u64,
    o2: Seq<char>,
)
    requires
        b.ships() == c.ships(),
        b.tally() == c.tally(),
        fought_round(b, d, dest, g, s, p2, g2, s2, o),
        fought_round(c, d, dest, g, s, q2, h2, t2, o2),
    ensures
        same_prompt(p2, q2),
        g2 == h2,
        s2 == t2,
        o == o2,
{
    let (b2, r) = choose|b2: Battle, r: (crate::combat::RoundReport, Option<crate::combat::BattleResult>)|
        {
            &&& #[trigger] Battle::stepped(b, d, g, s, b2, g2, s2, r)
            &&& match r.1 {
                Some(x) => {
                    let head = crate::run::round_narration(r.0) + crate::run::result_line(x);
                    o.len() >= head.len() && o.take(head.len() as int) == head && landed(
                        g2,
                        dest,
                        p2,
                        o.skip(head.len() as int),
                    )
                },
                None => {
                    &&& fighting(p2, b2.ships(), b2.tally(), dest)
                    &&& o == crate::run::round_narration(r.0) + crate::run::battle_prompt(b2.ships(), g2)
                },
            }
        };
    let (c2, q) = choose|c2: Battle, q: (crate::combat::RoundReport, Option<crate::combat::BattleResult>)|
        {
            &&& #[trigger] Battle::stepped(c, d, g, s, c2, h2, t2, q)
            &&& match q.1 {
                Some(x) => {
                    let head = crate::run::round_narration(q.0) + crate::run::result_line(x);
                    o2.len() >= head.len() && o2.take(head.len() as int) == head && landed(
                        h2,
                        dest,
                        q2,
                        o2.skip(head.len() as int),
                    )
                },
                None => {
                    &&& fighting(q2, c2.ships(), c2.tally(), dest)
                    &&& o2 == crate::run::round_narration(q.0) + crate::run::battle_prompt(c2.ships(), h2)
                },
            }
        };
    law_round_determined(b, c, d, g, s, b2, g2, s2, r, c2, h2, t2, q);
    if let Some(x) = r.1 {
        let head = crate::run::round_narration(r.0) + crate::run::result_line(x);
        lemma_landed_determined(g2, dest, p2, o.skip(head.len() as int), q2, o2.skip(head.len() as int));
        assert(o =~= o.take(head.len() as int) + o.skip(head.len() as int));
        assert(o2 =~= o2.take(head.len() as int) + o2.skip(head.len() as int));
    }
}

/// The bank step is determined by the game, the action typed and the amount.
pub proof fn lemma_bank_determined(
    action: Seq<char>,
    g: Game,
    s: u64,
    l: Seq<char>,
    p2: Prompt,
    g2: Game,
    s2: u64,
    o: Seq<char>,
    q2: Prompt,
    h2: Game,
    t2: u64,
    o2: Seq<char>,
    a: Prompt,
    b: Prompt,
)
    requires
        a matches Prompt::BankAmount { action: x } && x@ == action,
        b matches Prompt::BankAmount { action: y } && y@ == action,
        fed(a, g, s, Some(l), p2, g2, s2, o),
        fed(b, g, s, Some(l), q2, h2, t2, o2),
    ensures
        same_prompt(p2, q2),
        g2 == h2,
        s2 == t2,
        o == o2,
{
    match crate::text::parse_u32_spec(l) {
        None => {
            lemma_then_determined(o, crate::run::quoted(l, "' is not a number, Taipan.\n"@), g, p2, o2, q2);
        },
        Some(amount) => {
            let u = crate::text::uppercase(action);
            if u == "D"@ {
                let m1 = choose|moved: u32| #[trigger] Game::deposited(g, amount, g2, moved) && then(
                    o,
                    "Deposited "@ + crate::ui::num(moved as int) + ". Bank now "@ + crate::ui::num(g2.bank as int) + ".\n"@,
                    g2,
                    p2,
                );
                let m2 = choose|moved: u32| #[trigger] Game::deposited(g, amount, h2, moved) && then(
                    o2,
                    "Deposited "@ + crate::ui::num(moved as int) + ". Bank now "@ + crate::ui::num(h2.bank as int) + ".\n"@,
                    h2,
                    q2,
                );
                assert(g2 == h2);
                lemma_then_determined(
                    o,
                    "Deposited "@ + crate::ui::num(m1 as int) + ". Bank now "@ + crate::ui::num(g2.bank as int) + ".\n"@,
                    g2,
                    p2,
                    o2,
                    q2,
                );
            } else if u == "W"@ {
                let m1 = choose|moved: u64| #[trigger] Game::withdrew(g, amount as u64, g2, moved) && then(
                    o,
                    "Withdrew "@ + crate::ui::num(moved as int) + ". Cash now "@ + crate::ui::num(g2.cash as int) + ".\n"@,
                    g2,
                    p2,
                );
                let m2 = choose|moved: u64| #[trigger] Game::withdrew(g, amount as u64, h2, moved) && then(
                    o2,
                    "Withdrew "@ + crate::ui::num(moved as int) + ". Cash now "@ + crate::ui::num(h2.cash as int) + ".\n"@,
                    h2,
                    q2,
                );
                assert(g2 == h2);
                lemma_then_determined(
                    o,
                    "Withdrew "@ + crate::ui::num(m1 as int) + ". Cash now "@ + crate::ui::num(g2.cash as int) + ".\n"@,
                    g2,
                    p2,
                    o2,
                    q2,
                );
            } else if u == "P"@ {
                let m1 = choose|paid: u32| #[trigger] Game::paid_down(g, amount, g2, paid) && then(
                    o,
                    "Paid "@ + crate::ui::num(paid as int) + " toward debt. Debt now "@ + crate::ui::num(g2.debt as int)
                        + ".\n"@,
                    g2,
                    p2,
                );
                let m2 = choose|paid: u32| #[trigger] Game::paid_down(g, amount, h2, paid) && then(
                    o2,
                    "Paid "@ + crate::ui::num(paid as int) + " toward debt. Debt now "@ + crate::ui::num(h2.debt as int)
                        + ".\n"@,
                    h2,
                    q2,
                );
                assert(g2 == h2);
                lemma_then_determined(
                    o,
                    "Paid "@ + crate::ui::num(m1 as int) + " toward debt. Debt now "@ + crate::ui::num(g2.debt as int)
                        + ".\n"@,
                    g2,
                    p2,
                    o2,
                    q2,
                );
            } else {
                lemma_then_determined(o, crate::run::quoted(u, "' is not a bank action, Taipan.\n"@), g, p2, o2, q2);
            }
        },
    }
}

/// A voyage is determined by the game, the generator state and the port typed.
pub proof fn lemma_travel_determined(
    g: Game,
    s: u64,
    l: Seq<char>,
    p2: Prompt,
    g2: Game,
    s2: u64,
    o: Seq<char>,
    q2: Prompt,
    h2: Game,
    t2: u64,
    o2: Seq<char>,
)
    requires
        fed(Prompt::TravelPort, g, s, Some(l), p2, g2, s2, o),
        fed(Prompt::TravelPort, g, s, Some(l), q2, h2, t2, o2),
    ensures
        same_prompt(p2, q2),
        g2 == h2,
        s2 == t2,
        o == o2,
{
    match crate::text::parse_u32_spec(l) {
        None => {
            lemma_then_determined(o, crate::run::quoted(l, "' is not a port number, Taipan.\n"@), g, p2, o2, q2);
        },
        Some(n) => {
            if !(1 <= n <= 7) {
                lemma_then_determined(
                    o,
                    "There is no port "@ + crate::ui::num(n as int) + ", Taipan.\n"@,
                    g,
                    p2,
                    o2,
                    q2,
                );
            } else if crate::travel::port_numbered(n as int) == g.location {
                lemma_then_determined(o, "You are already there, Taipan.\n"@, g, p2, o2, q2);
            } else {
                let dest = crate::travel::port_numbered(n as int);
                let sail = "Setting sail for "@ + dest.title() + "...\n"@;
                let (g1, s1, e) = choose|g1: Game, s1: u64, e: Event|
                    #![trigger Game::traveled(g, s, dest, g1, s1, dest), rolled(g1, s1, g2, s2, e)]
                    {
                        &&& Game::traveled(g, s, dest, g1, s1, dest)
                        &&& rolled(g1, s1, g2, s2, e)
                        &&& match e {
                            Event::Pirates(b) => {
                                &&& fighting(p2, b.ships(), b.tally(), dest)
                                &&& o == sail + "\nPIRATES! "@ + crate::ui::num(
                                    crate::combat::count32(b.ships().len()) as int,
                                ) + " hostile ships close in, Taipan!\n"@ + crate::run::battle_prompt(
                                    b.ships(),
                                    g2,
                                )
                            },
                            _ => {
                                let head = sail + crate::run::event_narration(e);
                                o.len() >= head.len() && o.take(head.len() as int) == head && landed(
                                    g2,
                                    dest,
                                    p2,
                                    o.skip(head.len() as int),
                                )
                            },
                        }
                    };
                let (f1, u1, f) = choose|g1: Game, s1: u64, e: Event|
                    #![trigger Game::traveled(g, s, dest, g1, s1, dest), rolled(g1, s1, h2, t2, e)]
                    {
                        &&& Game::traveled(g, s, dest, g1, s1, dest)
                        &&& rolled(g1, s1, h2, t2, e)
                        &&& match e {
                            Event::Pirates(b) => {
                                &&& fighting(q2, b.ships(), b.tally(), dest)
                                &&& o2 == sail + "\nPIRATES! "@ + crate::ui::num(
                                    crate::combat::count32(b.ships().len()) as int,
                                ) + " hostile ships close in, Taipan!\n"@ + crate::run::battle_prompt(
                                    b.ships(),
                                    h2,
                                )
                            },
                            _ => {
                                let head = sail + crate::run::event_narration(e);
                                o2.len() >= head.len() && o2.take(head.len() as int) == head && landed(
                                    h2,
                                    dest,
                                    q2,
                                    o2.skip(head.len() as int),
                                )
                            },
                        }
                    };
                Market::lemma_view_eq(g1.market, f1.market);
                assert(g1 == f1);
                law_roll_determined(g1, s1, g2, s2, e, h2, t2, f);
                match e {
                    Event::Pirates(b) => {},
                    _ => {
                        assert(e == f);
                        let head = sail + crate::run::event_narration(e);
                        lemma_landed_determined(g2, dest, p2, o.skip(head.len() as int), q2, o2.skip(head.len() as int));
                        assert(o =~= o.take(head.len() as int) + o.skip(head.len() as int));
                        assert(o2 =~= o2.take(head.len() as int) + o2.skip(head.len() as int));
                    },
                }
            }
        },
    }
}

/// The main menu step is determined by the game and the line typed.
pub proof fn lemma_command_determined(
    g: Game,
    s: u64,
    l: Option<Seq<char>>,
    p2: Prompt,
    g2: Game,
    s2: u64,
    o: Seq<char>,
    q2: Prompt,
    h2: Game,
    t2: u64,
    o2: Seq<char>,
)
    requires
        fed(Prompt::Command, g, s, l, p2, g2, s2, o),
        fed(Prompt::Command, g, s, l, q2, h2, t2, o2),
    ensures
        same_prompt(p2, q2),
        g2 == h2,
        s2 == t2,
        o == o2,
{
    reveal_strlit("B");
    reveal_strlit("S");
    reveal_strlit("T");
    reveal_strlit("K");
    reveal_strlit("R");
    reveal_strlit("Q");
    assert("K"@ != "B"@ && "K"@ != "S"@ && "K"@ != "T"@) by {
        assert("K"@[0] != "B"@[0] && "K"@[0] != "S"@[0] && "K"@[0] != "T"@[0]);
    }
    assert("R"@ != "B"@ && "R"@ != "S"@ && "R"@ != "T"@ && "R"@ != "K"@) by {
        assert("R"@[0] != "B"@[0] && "R"@[0] != "S"@[0] && "R"@[0] != "T"@[0] && "R"@[0] != "K"@[0]);
    }
    if let Some(x) = l {
        let c = crate::text::uppercase(x);
        if c == "K"@ && g.location != crate::travel::Port::HongKong {
            lemma_then_determined(
                o,
                "The bank and Elder Brother Wu are only in Hong Kong, Taipan.\n"@,
                g,
                p2,
                o2,
                q2,
            );
        } else if c == "R"@ {
            if g.worth() >= crate::game::WIN_TARGET {
                assert(g2 == h2);
                lemma_resumed_determined(g2, p2, o, q2, o2);
            } else {
                lemma_then_determined(
                    o,
                    "Taipan, you need a net worth of "@ + crate::ui::num(crate::game::WIN_TARGET as int)
                        + " to retire \u{2014} you have "@ + crate::ui::num(g.worth()) + ".\n"@,
                    g,
                    p2,
                    o2,
                    q2,
                );
            }
        } else if !(c == "B"@) && !(c == "S"@) && !(c == "T"@) && !(c == "K"@) && !(c == "R"@) && !(c
            == "Q"@) {
            lemma_then_determined(o, "I don't understand "@ + crate::run::quoted(c, "', Taipan.\n"@), g, p2, o2, q2);
        }
    }
}

/// A quantity step at a buy or sell prompt is determined by the game, the good and the
/// line typed.
pub proof fn lemma_trade_determined(
    p: Prompt,
    g: Game,
    s: u64,
    l: Seq<char>,
    p2: Prompt,
    g2: Game,
    s2: u64,
    o: Seq<char>,
    q2: Prompt,
    h2: Game,
    t2: u64,
    o2: Seq<char>,
)
    requires
        p is BuyQty || p is SellQty,
        fed(p, g, s, Some(l), p2, g2, s2, o),
        fed(p, g, s, Some(l), q2, h2, t2, o2),
    ensures
        same_prompt(p2, q2),
        g2 == h2,
        s2 == t2,
        o == o2,
{
    match crate::text::parse_u32_spec(l) {
        None => {
            lemma_then_determined(o, crate::run::quoted(l, "' is not a number, Taipan.\n"@), g, p2, o2, q2);
        },
        Some(qty) => {
            Hold::lemma_view_eq(g2.hold, h2.hold);
            assert(g2 == h2);
            match p {
                Prompt::BuyQty { good } => {
                    let r = crate::market::buy_result(g.market@[good.slot()], g.cash, g.hold, qty);
                    lemma_then_determined(o, crate::run::buy_words(r, qty, good), g2, p2, o2, q2);
                },
                Prompt::SellQty { good } => {
                    let r = crate::market::sell_result(g.market@[good.slot()], g.hold, good, qty);
                    lemma_then_determined(o, crate::run::sell_words(r, qty, good), g2, p2, o2, q2);
                },
                _ => {},
            }
        },
    }
}

/// One step of the turn loop is determined by what it waits for, the game, the
/// generator state and the line fed: two steps from the same start give the same
/// game, generator state and text, and wait for the same thing next.
pub proof fn law_step_determined(
    p: Prompt,
    q: Prompt,
    g: Game,
    s: u64,
    l: Option<Seq<char>>,
    p2: Prompt,
    g2: Game,
    s2: u64,
    o: Seq<char>,
    q2: Prompt,
    h2: Game,
    t2: u64,
    o2: Seq<char>,
)
    requires
        same_prompt(p, q),
        fed(p, g, s, l, p2, g2, s2, o),
        fed(q, g, s, l, q2, h2, t2, o2),
    ensures
        same_prompt(p2, q2),
        g2 == h2,
        s2 == t2,
        o == o2,
{
    match p {
        Prompt::Over => {},
        Prompt::Command => {
            lemma_command_determined(g, s, l, p2, g2, s2, o, q2, h2, t2, o2);
        },
        Prompt::BuyGood | Prompt::SellGood => {
            match l {
                None => {
                    lemma_resumed_determined(g, p2, o, q2, o2);
                },
                Some(x) => {
                    if crate::run::good_named(x) is None {
                        lemma_then_determined(o, crate::run::quoted(x, "' is not a good I trade, Taipan.\n"@), g, p2, o2, q2);
                    }
                },
            }
        },
        Prompt::BuyQty { .. } | Prompt::SellQty { .. } => {
            assert(p == q);
            match l {
                None => {
                    lemma_resumed_determined(g, p2, o, q2, o2);
                },
                Some(x) => {
                    lemma_trade_determined(p, g, s, x, p2, g2, s2, o, q2, h2, t2, o2);
                },
            }
        },
        Prompt::BankAction => {
            if l is None {
                lemma_resumed_determined(g, p2, o, q2, o2);
            }
        },
        Prompt::BankAmount { action } => {
            match l {
                None => {
                    lemma_resumed_determined(g, p2, o, q2, o2);
                },
                Some(x) => {
                    lemma_bank_determined(action@, g, s, x, p2, g2, s2, o, q2, h2, t2, o2, p, q);
                },
            }
        },
        Prompt::TravelPort => {
            match l {
                None => {
                    lemma_resumed_determined(g, p2, o, q2, o2);
                },
                Some(x) => {
                    lemma_travel_determined(g, s, x, p2, g2, s2, o, q2, h2, t2, o2);
                },
            }
        },
        Prompt::Fighting { battle, dest } => {
            reveal_strlit("F");
            reveal_strlit("R");
            reveal_strlit("T");
            assert("R"@ != "F"@) by {
                assert("R"@[0] != "F"@[0]);
            }
            let b2 = q->Fighting_battle;
            match l {
                None => {
                    lemma_landed_determined(g, dest, p2, o, q2, o2);
                },
                Some(x) => {
                    let c = crate::text::uppercase(x);
                    if c == "F"@ {
                        lemma_fought_determined(battle, b2, crate::combat::Decision::Fight, dest, g, s, p2, g2, s2, o, q2, h2, t2, o2);
                    } else if c == "R"@ {
                        lemma_fought_determined(battle, b2, crate::combat::Decision::Run, dest, g, s, p2, g2, s2, o, q2, h2, t2, o2);
                    }
                },
            }
        },
        Prompt::ThrowGood { .. } => {},
        Prompt::ThrowQty { battle, dest, good } => {
            let b2 = q->ThrowQty_battle;
            if let Some(x) = l {
                if let Some(n) = crate::text::parse_u32_spec(x) {
                    lemma_fought_determined(
                        battle,
                        b2,
                        crate::combat::Decision::Throw { good, qty: n },
                        dest,
                        g,
                        s,
                        p2,
                        g2,
                        s2,
                        o,
                        q2,
                        h2,
                        t2,
                        o2,
                    );
                }
            }
        },
    }
}

/// Whether two loop states are the same.
pub open spec fn same_state(a: (Prompt, Game, u64), b: (Prompt, Game, u64)) -> bool {
    same_prompt(a.0, b.0) && a.1 == b.1 && a.2 == b.2
}

/// Two traces over the same lines from the same state agree step by step.
proof fn lemma_traces_agree(
    ins: Seq<Seq<char>>,
    st: Seq<(Prompt, Game, u64)>,
    outs: Seq<Seq<char>>,
    st2: Seq<(Prompt, Game, u64)>,
    outs2: Seq<Seq<char>>,
    k: int,
)
    requires
        traced(st, ins, outs),
        traced(st2, ins, outs2),
        same_state(st[0], st2[0]),
        0 <= k <= outs.len(),
        k <= outs2.len(),
    ensures
        same_state(st[k], st2[k]),
        forall|j: int| 0 <= j < k ==> #[trigger] outs[j] == outs2[j],
    decreases k,
{
    if k > 0 {
        lemma_traces_agree(ins, st, outs, st2, outs2, k - 1);
        let i = k - 1;
        assert(0 <= i < outs.len());
        assert(stepped_to(st[i], line_at(ins, i), st[i + 1], outs[i]));
        assert(live(st[i].0));
        assert(live(st2[i].0) && stepped_to(st2[i], line_at(ins, i), st2[i + 1], outs2[i]));
        reveal(stepped_to);
        law_step_determined(
            st[i].0,
            st2[i].0,
            st[i].1,
            st[i].2,
            line_at(ins, i),
            st[i + 1].0,
            st[i + 1].1,
            st[i + 1].2,
            outs[i],
            st2[i + 1].0,
            st2[i + 1].1,
            st2[i + 1].2,
            outs2[i],
        );
    }
}

/// A whole play is determined by the game, the generator state and the lines typed:
/// two plays from the same start over the same lines print the same text, end with the
/// same outcome and generator state, and leave the same lines unread.
pub proof fn law_play_determined(
    game: Game,
    s: u64,
    ins: Seq<Seq<char>>,
    out1: Seq<char>,
    r1: Option<crate::game::Outcome>,
    e1: u64,
    rest1: Seq<Seq<char>>,
    out2: Seq<char>,
    r2: Option<crate::game::Outcome>,
    e2: u64,
    rest2: Seq<Seq<char>>,
)
    requires
        played(game, s, ins, out1, r1, e1, rest1),
        played(game, s, ins, out2, r2, e2, rest2),
    ensures
        out1 == out2,
        r1 == r2,
        e1 == e2,
        rest1 == rest2,
{
    let (st, outs, first) = choose|states: Seq<(Prompt, Game, u64)>, outs: Seq<Seq<char>>, first: Seq<char>|
        #![trigger traced(states, ins, outs), opened(game, states[0].0, first)]
        {
            &&& traced(states, ins, outs)
            &&& states[0].1 == game
            &&& states[0].2 == s
            &&& opened(game, states[0].0, first)
            &&& states.last().0 is Over
            &&& r1 == states.last().1.outcome
            &&& e1 == states.last().2
            &&& out1 == first + outs.flatten()
            &&& rest1 == ins.skip(if outs.len() <= ins.len() { outs.len() as int } else { ins.len() as int })
        };
    let (st2, outs2, first2) = choose|states: Seq<(Prompt, Game, u64)>, outs: Seq<Seq<char>>, first: Seq<char>|
        #![trigger traced(states, ins, outs), opened(game, states[0].0, first)]
        {
            &&& traced(states, ins, outs)
            &&& states[0].1 == game
            &&& states[0].2 == s
            &&& opened(game, states[0].0, first)
            &&& states.last().0 is Over
            &&& r2 == states.last().1.outcome
            &&& e2 == states.last().2
            &&& out2 == first + outs.flatten()
            &&& rest2 == ins.skip(if outs.len() <= ins.len() { outs.len() as int } else { ins.len() as int })
        };
    lemma_then_determined(first, crate::run::banner_text(game), game, st[0].0, first2, st2[0].0);
    let n = outs.len() as int;
    let n2 = outs2.len() as int;
    if n < n2 {
        lemma_traces_agree(ins, st, outs, st2, outs2, n);
        assert(stepped_to(st2[n], line_at(ins, n), st2[n + 1], outs2[n]));
        assert(live(st2[n].0));
        assert(st[n] == st.last());
        assert(false);
    } else if n2 < n {
        lemma_traces_agree(ins, st, outs, st2, outs2, n2);
        assert(stepped_to(st[n2], line_at(ins, n2), st[n2 + 1], outs[n2]));
        assert(live(st[n2].0));
        assert(st2[n2] == st2.last());
        assert(false);
    }
    lemma_traces_agree(ins, st, outs, st2, outs2, n);
    assert(outs =~= outs2);
    assert(st[n] == st.last());
    assert(st2[n] == st2.last());
}

/// The outcome of a command or combat step.
pub type StepOut = Result<(Option<(Seq<u32>, u32)>, Seq<char>), Seq<char>>;

/// A word's length and first three characters.
pub open spec fn sig4(w: Seq<char>) -> (nat, char, char, char) {
    (w.len(), w[0], w[1], w[2])
}

/// The command words, told apart by their lengths and first three characters.
pub proof fn lemma_verb_sigs()
    ensures
        sig4("buy"@) == (3nat, 'b', 'u', 'y'),
        sig4("repair"@) == (6nat, 'r', 'e', 'p'),
        sig4("sell"@) == (4nat, 's', 'e', 'l'),
        sig4("deposit"@) == (7nat, 'd', 'e', 'p'),
        sig4("withdraw"@) == (8nat, 'w', 'i', 't'),
        sig4("pay"@) == (3nat, 'p', 'a', 'y'),
        sig4("borrow"@) == (6nat, 'b', 'o', 'r'),
        sig4("store"@) == (5nat, 's', 't', 'o'),
        sig4("retire"@) == (6nat, 'r', 'e', 't'),
        sig4("travel"@) == (6nat, 't', 'r', 'a'),
        sig4("guns"@) == (4nat, 'g', 'u', 'n'),
        sig4("hold"@) == (4nat, 'h', 'o', 'l'),
        sig4("fight"@) == (5nat, 'f', 'i', 'g'),
        sig4("run"@) == (3nat, 'r', 'u', 'n'),
        sig4("throw"@) == (5nat, 't', 'h', 'r'),
{
    reveal_strlit("buy");
    reveal_strlit("repair");
    reveal_strlit("sell");
    reveal_strlit("deposit");
    reveal_strlit("withdraw");
    reveal_strlit("pay");
    reveal_strlit("borrow");
    reveal_strlit("store");
    reveal_strlit("retire");
    reveal_strlit("travel");
    reveal_strlit("guns");
    reveal_strlit("hold");
    reveal_strlit("fight");
    reveal_strlit("run");
    reveal_strlit("throw");
}

/// A command applied to a game is determined by the game, the generator state and the
/// words: the same outcome, and on success the same game and state.
pub proof fn lemma_command_applied_determined(
    g: Game,
    s: u64,
    toks: Seq<Seq<char>>,
    g2: Game,
    s2: u64,
    out: StepOut,
    h2: Game,
    t2: u64,
    out2: StepOut,
)
    requires
        command_applied(g, s, toks, g2, s2, out),
        command_applied(g, s, toks, h2, t2, out2),
    ensures
        out == out2,
        out is Ok ==> g2 == h2 && s2 == t2,
{
    lemma_verb_sigs();
    if toks.len() > 0 {
        let verb = toks[0];
        let args = toks.skip(1);
        if verb == "travel"@ {
            if let Ok(dest) = crate::action::port_arg(args) {
                if dest != g.location {
                    let (g1, s1, e) = choose|g1: Game, s1: u64, e: Event|
                        {
                            &&& Game::traveled(g, s, dest, g1, s1, dest)
                            &&& rolled(g1, s1, g2, s2, e)
                            &&& out == Ok::<(Option<(Seq<u32>, u32)>, Seq<char>), Seq<char>>(
                                crate::action::travel_outcome(dest, e),
                            )
                        };
                    let (f1, u1, f) = choose|g1: Game, s1: u64, e: Event|
                        {
                            &&& Game::traveled(g, s, dest, g1, s1, dest)
                            &&& rolled(g1, s1, h2, t2, e)
                            &&& out2 == Ok::<(Option<(Seq<u32>, u32)>, Seq<char>), Seq<char>>(
                                crate::action::travel_outcome(dest, e),
                            )
                        };
                    Market::lemma_view_eq(g1.market, f1.market);
                    assert(g1 == f1);
                    law_roll_determined(g1, s1, g2, s2, e, h2, t2, f);
                }
            }
        } else if out is Ok {
            Hold::lemma_view_eq(g2.hold, h2.hold);
            assert(g2.warehouse =~= h2.warehouse);
        }
    }
}

/// A combat step applied to a game is determined by the battle's ships and tally, the
/// game, the generator state and the words.
pub proof fn lemma_combat_applied_determined(
    hp: Seq<u32>,
    sunk: u32,
    g: Game,
    s: u64,
    toks: Seq<Seq<char>>,
    g2: Game,
    s2: u64,
    out: StepOut,
    h2: Game,
    t2: u64,
    out2: StepOut,
)
    requires
        combat_applied(hp, sunk, g, s, toks, g2, s2, out),
        combat_applied(hp, sunk, g, s, toks, h2, t2, out2),
    ensures
        out == out2,
        out is Ok ==> g2 == h2 && s2 == t2,
{
    lemma_verb_sigs();
    if let Ok(d) = crate::action::decision_of(toks) {
        let (b, b2, r) = choose|b: Battle, b2: Battle, r: (crate::combat::RoundReport, Option<crate::combat::BattleResult>)|
            {
                &&& b.ships() == hp
                &&& b.tally() == sunk
                &&& Battle::stepped(b, d, g, s, b2, g2, s2, r)
                &&& out == Ok::<(Option<(Seq<u32>, u32)>, Seq<char>), Seq<char>>(crate::action::combat_outcome(b2, r))
            };
        let (c, c2, q) = choose|b: Battle, b2: Battle, r: (crate::combat::RoundReport, Option<crate::combat::BattleResult>)|
            {
                &&& b.ships() == hp
                &&& b.tally() == sunk
                &&& Battle::stepped(b, d, g, s, b2, h2, t2, r)
                &&& out2 == Ok::<(Option<(Seq<u32>, u32)>, Seq<char>), Seq<char>>(crate::action::combat_outcome(b2, r))
            };
        law_round_determined(b, c, d, g, s, b2, g2, s2, r, c2, h2, t2, q);
    }
}

/// Whether two results of an action agree: the same error text, or saves with the same
/// game, generator state, pending battle and note.
pub open spec fn same_result(r1: Result<Save, String>, r2: Result<Save, String>) -> bool {
    match (r1, r2) {
        (Err(a), Err(b)) => a@ == b@,
        (Ok(a), Ok(b)) => a.game == b.game && a.rng_state == b.rng_state && pending_view(a.pending)
            == pending_view(b.pending) && a.last_event@ == b.last_event@,
        _ => false,
    }
}

/// An action applied to a save is determined by the save and the action: two
/// applications give the same error, or saves with the same game, generator state,
/// pending battle and note.
pub proof fn law_apply_determined(save: Save, action: Seq<char>, r1: Result<Save, String>, r2: Result<Save, String>)
    requires
        applied(save, action, r1),
        applied(save, action, r2),
    ensures
        same_result(r1, r2),
{
    if save.game.outcome is None {
        let toks = crate::text::lower_words(action);
        let (g2, s2, out) = choose|g2: Game, s2: u64, out: StepOut| #[trigger] resolves_via(save, toks, g2, s2, out, r1);
        let (h2, t2, out2) = choose|g2: Game, s2: u64, out: StepOut| #[trigger] resolves_via(save, toks, g2, s2, out, r2);
        match save.pending {
            crate::state::Pending::Command => {
                lemma_command_applied_determined(save.game, save.rng_state, toks, g2, s2, out, h2, t2, out2);
            },
            crate::state::Pending::Combat { enemies, sunk } => {
                lemma_combat_applied_determined(enemies@, sunk, save.game, save.rng_state, toks, g2, s2, out, h2, t2, out2);
            },
        }
    }
}

/// Both front-ends sail alike: a voyage to a port from the same game and generator
/// state leaves the same game and generator state whether it is typed at the turn
/// loop's travel prompt or applied as a `travel` action to a save.
pub proof fn law_voyage_agrees(
    g: Game,
    s: u64,
    l: Seq<char>,
    p2: Prompt,
    g2: Game,
    s2: u64,
    o: Seq<char>,
    toks: Seq<Seq<char>>,
    h2: Game,
    t2: u64,
    out: StepOut,
)
    requires
        fed(Prompt::TravelPort, g, s, Some(l), p2, g2, s2, o),
        crate::text::parse_u32_spec(l) matches Some(n) && 1 <= n <= 7 && crate::travel::port_numbered(
            n as int,
        ) != g.location,
        command_applied(g, s, toks, h2, t2, out),
        toks.len() > 0,
        toks[0] == "travel"@,
        crate::action::port_arg(toks.skip(1)) matches Ok(p) && p == crate::travel::port_numbered(
            crate::text::parse_u32_spec(l)->Some_0 as int,
        ),
    ensures
        g2 == h2,
        s2 == t2,
{
    lemma_verb_sigs();
    let n = crate::text::parse_u32_spec(l)->Some_0;
    let dest = crate::travel::port_numbered(n as int);
    let sail = "Setting sail for "@ + dest.title() + "...\n"@;
    let (g1, s1, e) = choose|g1: Game, s1: u64, e: Event|
        #![trigger Game::traveled(g, s, dest, g1, s1, dest), rolled(g1, s1, g2, s2, e)]
        {
            &&& Game::traveled(g, s, dest, g1, s1, dest)
            &&& rolled(g1, s1, g2, s2, e)
            &&& match e {
                Event::Pirates(b) => {
                    &&& fighting(p2, b.ships(), b.tally(), dest)
                    &&& o == sail + "\nPIRATES! "@ + crate::ui::num(crate::combat::count32(b.ships().len()) as int)
                        + " hostile ships close in, Taipan!\n"@ + crate::run::battle_prompt(b.ships(), g2)
                },
                _ => {
                    let head = sail + crate::run::event_narration(e);
                    o.len() >= head.len() && o.take(head.len() as int) == head && landed(
                        g2,
                        dest,
                        p2,
                        o.skip(head.len() as int),
                    )
                },
            }
        };
    let (f1, u1, f) = choose|g1: Game, s1: u64, e: Event|
        {
            &&& Game::traveled(g, s, dest, g1, s1, dest)
            &&& rolled(g1, s1, h2, t2, e)
            &&& out == Ok::<(Option<(Seq<u32>, u32)>, Seq<char>), Seq<char>>(crate::action::travel_outcome(dest, e))
        };
    Market::lemma_view_eq(g1.market, f1.market);
    assert(g1 == f1);
    law_roll_determined(g1, s1, g2, s2, e, h2, t2, f);
}


/// Two fresh games from the same generator state are the same game.
proof fn lemma_fresh_unique(mode: EconomyMode, s: u64, g1: Game, g2: Game)
    requires
        g1.fresh(mode, s),
        g2.fresh(mode, s),
    ensures
        g1 == g2,
{
    Hold::lemma_view_eq(g1.hold, g2.hold);
    Market::lemma_view_eq(g1.market, g2.market);
    assert(g1.warehouse@ == g2.warehouse@);
    assert(g1.warehouse == g2.warehouse);
}

/// Same seed and same moves give the same game: two interactive games started from
/// one generator state and fed the same lines print the same text, end with the same
/// outcome and generator state, and leave the same lines unread.
pub proof fn law_same_seed_same_game(
    s0: u64,
    ins: Seq<Seq<char>>,
    g1: Game,
    out1: Seq<char>,
    r1: Option<crate::game::Outcome>,
    e1: u64,
    rest1: Seq<Seq<char>>,
    g2: Game,
    out2: Seq<char>,
    r2: Option<crate::game::Outcome>,
    e2: u64,
    rest2: Seq<Seq<char>>,
)
    requires
        g1.fresh(EconomyMode::Classic, s0),
        g2.fresh(EconomyMode::Classic, s0),
        played(g1, roll_prices(bias_row(EconomyMode::Classic, Port::HongKong), s0, 4).1, ins, out1, r1, e1, rest1),
        played(g2, roll_prices(bias_row(EconomyMode::Classic, Port::HongKong), s0, 4).1, ins, out2, r2, e2, rest2),
    ensures
        out1 == out2,
        r1 == r2,
        e1 == e2,
        rest1 == rest2,
{
    lemma_fresh_unique(EconomyMode::Classic, s0, g1, g2);
    law_play_determined(
        g1,
        roll_prices(bias_row(EconomyMode::Classic, Port::HongKong), s0, 4).1,
        ins,
        out1,
        r1,
        e1,
        rest1,
        out2,
        r2,
        e2,
        rest2,
    );
}

} // verus!
