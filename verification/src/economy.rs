//! Economy models and the per-port percent price bias they imply.

use vstd::prelude::*;
use crate::market::{Good, good_at};
use crate::travel::Port;
use crate::text::{chars_to_string, to_chars, to_lowercase, trim, trim_chars, lowercase};

verus! {

/// Which economy model the game runs under.
#[derive(Debug, Clone, Copy, PartialEq, Eq, Structural)]
pub enum EconomyMode {
    /// Independent uniform prices at every port.
    Classic,
    /// Ports specialize: cheap sources and dear sinks, giving learnable trade routes.
    Trader,
}

/// The Trader model's percent bias for a good at a port (negative: a cheap source;
/// positive: a dear sink).
pub open spec fn trader_table(port: Port, good: Good) -> i32 {
    let row: Seq<i32> = match port {
        Port::HongKong => seq![40i32, 10i32, 30i32, -35i32],
        Port::Shanghai => seq![-40i32, 25i32, 15i32, 10i32],
        Port::Nagasaki => seq![20i32, -40i32, 35i32, 15i32],
        Port::Saigon => seq![10i32, 20i32, -40i32, 25i32],
        Port::Manila => seq![-30i32, 35i32, 20i32, -10i32],
        Port::Singapore => seq![25i32, -25i32, -30i32, 30i32],
        Port::Batavia => seq![-35i32, 15i32, 25i32, -30i32],
    };
    row[good.slot()]
}

/// The bias array a model gives a port, by good slot.
pub open spec fn bias_row(mode: EconomyMode, port: Port) -> Seq<i32> {
    match mode {
        EconomyMode::Classic => seq![0i32, 0i32, 0i32, 0i32],
        EconomyMode::Trader => seq![
            trader_table(port, Good::Opium),
            trader_table(port, Good::Silk),
            trader_table(port, Good::Arms),
            trader_table(port, Good::General),
        ],
    }
}

impl EconomyMode {
    /// The mode an already trimmed and lowercased word names.
    pub open spec fn named_by(w: Seq<char>) -> Option<EconomyMode> {
        if w == "classic"@ {
            Some(EconomyMode::Classic)
        } else if w == "trader"@ {
            Some(EconomyMode::Trader)
        } else {
            None
        }
    }

    /// The name used on the command line and in saves.
    pub open spec fn title(self) -> Seq<char> {
        match self {
            EconomyMode::Classic => "classic"@,
            EconomyMode::Trader => "trader"@,
        }
    }

    /// The mode named by an already trimmed and lowercased word.
    pub fn from_word(word: &str) -> (m: Option<EconomyMode>)
        ensures
            m == EconomyMode::named_by(word@),
    {
        let w = to_chars(word);
        if same_text(&w, "classic") {
            Some(EconomyMode::Classic)
        } else if same_text(&w, "trader") {
            Some(EconomyMode::Trader)
        } else {
            None
        }
    }

    /// Parse from a command-line value, trimmed and case-insensitive.
    pub fn parse(s: &str) -> (m: Option<EconomyMode>)
        ensures
            m == EconomyMode::named_by(lowercase(trim(s@))),
    {
        let t = trim_chars(&to_chars(s));
        let low = to_lowercase(&t);
        let w = chars_to_string(&low);
        EconomyMode::from_word(w.as_str())
    }

    pub fn name(self) -> (n: &'static str)
        ensures
            n@ == self.title(),
    {
        match self {
            EconomyMode::Classic => "classic",
            EconomyMode::Trader => "trader",
        }
    }
}

/// Whether the characters `w` spell exactly `t`.
pub fn same_text(w: &Vec<char>, t: &str) -> (b: bool)
    ensures
        b == (w@ == t@),
{
    let n = to_chars(t);
    if w.len() != n.len() {
        return false;
    }
    let mut i: usize = 0;
    while i < w.len()
        invariant
            w@.len() == n@.len(),
            n@ == t@,
            i <= w@.len(),
            forall|k: int| 0 <= k < i ==> w@[k] == n@[k],
        decreases w@.len() - i,
    {
        if w[i] != n[i] {
            return false;
        }
        i = i + 1;
    }
    assert(w@ == n@);
    true
}

/// The Trader model's bias for a good at a port.
fn trader_bias(port: Port, good: Good) -> (b: i32)
    ensures
        b == trader_table(port, good),
{
    let row: [i32; 4] = match port {
        Port::HongKong => [40, 10, 30, -35],
        Port::Shanghai => [-40, 25, 15, 10],
        Port::Nagasaki => [20, -40, 35, 15],
        Port::Saigon => [10, 20, -40, 25],
        Port::Manila => [-30, 35, 20, -10],
        Port::Singapore => [25, -25, -30, 30],
        Port::Batavia => [-35, 15, 25, -30],
    };
    row[good.index()]
}

/// The per-good bias array for a port: all zero under Classic, the port's trade
/// profile under Trader.
pub fn biases_for(mode: EconomyMode, port: Port) -> (b: [i32; 4])
    ensures
        b@ == bias_row(mode, port),
{
    match mode {
        EconomyMode::Classic => {
            let b = [0i32; 4];
            assert(b@ == bias_row(mode, port));
            b
        },
        EconomyMode::Trader => {
            let mut b = [0i32; 4];
            let mut i: usize = 0;
            while i < 4
                invariant
                    i <= 4,
                    b@.len() == 4,
                    forall|k: int| 0 <= k < i ==> b@[k] == trader_table(port, good_at(k)),
                decreases 4 - i,
            {
                let good = Good::from_index(i);
                b[i] = trader_bias(port, good);
                i = i + 1;
            }
            assert(b@ == bias_row(mode, port));
            b
        },
    }
}

/// The Classic model biases nothing anywhere.
pub proof fn law_classic_is_flat(port: Port, good: Good)
    ensures
        bias_row(EconomyMode::Classic, port)[good.slot()] == 0,
{
}

/// Under Trader every port biases some good, and every bias lies in `[-50, 50]`.
pub proof fn law_trader_bias_nonzero_and_bounded(port: Port, good: Good)
    ensures
        exists|g: Good| trader_table(port, g) != 0,
        -50 <= trader_table(port, good) <= 50,
{
    assert(trader_table(port, Good::Opium) != 0);
}

/// Under Trader every good has a cheap source and a dear sink, at least 40 points apart.
pub proof fn law_every_good_has_a_route(good: Good)
    ensures
        exists|a: Port, b: Port|
            trader_table(a, good) < 0 && trader_table(b, good) > 0 && trader_table(b, good)
                - trader_table(a, good) >= 40,
{
    match good {
        Good::Opium => {
            assert(trader_table(Port::Shanghai, good) < 0 && trader_table(Port::HongKong, good) > 0);
        },
        Good::Silk => {
            assert(trader_table(Port::Nagasaki, good) < 0 && trader_table(Port::Manila, good) > 0);
        },
        Good::Arms => {
            assert(trader_table(Port::Saigon, good) < 0 && trader_table(Port::Nagasaki, good) > 0);
        },
        Good::General => {
            assert(trader_table(Port::HongKong, good) < 0 && trader_table(Port::Singapore, good) > 0);
        },
    }
}

} // verus!
