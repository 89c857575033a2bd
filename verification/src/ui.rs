//! The input/output seam and screen rendering.

use vstd::prelude::*;
use std::collections::VecDeque;
use crate::game::{Game, MAX_HEALTH};
use crate::market::{Good, good_at, total};
use crate::text::{decimal, push_decimal, push_str, to_chars, chars_to_string};
use crate::travel::{Port, port_numbered};

verus! {

/// The seam between the game and the outside world.
pub trait Io {
    /// Print a line (newline appended).
    fn writeln(&mut self, s: &str);

    /// Print without a trailing newline (for prompts).
    fn write(&mut self, s: &str);

    /// Read one line of input; `None` at the end of input.
    fn read_line(&mut self) -> Option<String>;
}

/// Canned input lines in, captured output out.
pub struct ScriptedIo {
    inputs: VecDeque<String>,
    pub output: String,
}

/// The characters of each string in a list.
pub open spec fn texts(v: Seq<String>) -> Seq<Seq<char>> {
    v.map_values(|s: String| s@)
}

impl ScriptedIo {
    /// Everything written so far.
    pub closed spec fn transcript(&self) -> Seq<char> {
        self.output@
    }

    /// The input lines not yet read.
    pub closed spec fn remaining(&self) -> Seq<Seq<char>> {
        texts(self.inputs@)
    }

    /// Build from the lines the player will type, in order.
    pub fn new(inputs: &[&str]) -> (io: ScriptedIo)
        ensures
            io.remaining() == inputs@.map_values(|s: &str| s@),
            io.transcript() == Seq::<char>::empty(),
    {
        let mut v: VecDeque<String> = VecDeque::new();
        let mut i: usize = 0;
        while i < inputs.len()
            invariant
                i <= inputs@.len(),
                texts(v@) == inputs@.take(i as int).map_values(|s: &str| s@),
            decreases inputs@.len() - i,
        {
            let ghost v0 = v@;
            v.push_back(String::from_str(inputs[i]));
            assert(inputs@.take(i as int + 1) == inputs@.take(i as int).push(inputs@[i as int]));
            assert(texts(v@) == texts(v0).push(inputs@[i as int]@));
            assert(inputs@.take(i as int + 1).map_values(|s: &str| s@) == inputs@.take(i as int).map_values(
                |s: &str| s@,
            ).push(inputs@[i as int]@));
            i = i + 1;
        }
        assert(inputs@.take(i as int) == inputs@);
        ScriptedIo { inputs: v, output: String::new() }
    }

    /// All scripted inputs have been read.
    pub fn inputs_exhausted(&self) -> (b: bool)
        ensures
            b == (self.remaining().len() == 0),
    {
        self.inputs.len() == 0
    }

    /// Append text to the captured output.
    pub fn put(&mut self, s: &str)
        ensures
            final(self).transcript() == old(self).transcript() + s@,
            final(self).remaining() == old(self).remaining(),
    {
        self.output.append(s);
    }
}

impl Io for ScriptedIo {
    fn writeln(&mut self, s: &str)
        ensures
            final(self).transcript() == old(self).transcript() + s@ + seq!['\n'],
            final(self).remaining() == old(self).remaining(),
    {
        self.output.append(s);
        self.output.append("\n");
        proof {
            reveal_strlit("\n");
        }
    }

    fn write(&mut self, s: &str)
        ensures
            final(self).transcript() == old(self).transcript() + s@,
            final(self).remaining() == old(self).remaining(),
    {
        self.output.append(s);
    }

    fn read_line(&mut self) -> (r: Option<String>)
        ensures
            old(self).remaining().len() == 0 ==> r is None && final(self).remaining() == old(self).remaining(),
            old(self).remaining().len() > 0 ==> (r matches Some(l) && l@ == old(self).remaining()[0]
                && final(self).remaining() == old(self).remaining().drop_first()),
            final(self).transcript() == old(self).transcript(),
    {
        let ghost before = self.inputs@;
        let r = self.inputs.pop_front();
        proof {
            if r is Some {
                assert(texts(self.inputs@) == texts(before).drop_first());
            }
        }
        r
    }
}

/// `s` padded with spaces on the right to width `w`.
pub open spec fn pad_right(s: Seq<char>, w: nat) -> Seq<char> {
    if s.len() >= w {
        s
    } else {
        s + Seq::new((w - s.len()) as nat, |i: int| ' ')
    }
}

/// `s` padded with spaces on the left to width `w`.
pub open spec fn pad_left(s: Seq<char>, w: nat) -> Seq<char> {
    if s.len() >= w {
        s
    } else {
        Seq::new((w - s.len()) as nat, |i: int| ' ') + s
    }
}

/// A number as text.
pub open spec fn num(n: int) -> Seq<char> {
    decimal(n as nat)
}

/// The hold lines for the goods at slots `0..k` that are on board.
pub open spec fn cargo_lines(g: Game, k: int) -> Seq<char>
    decreases k,
{
    if k <= 0 {
        Seq::empty()
    } else {
        let q = g.hold.cargo()[k - 1];
        cargo_lines(g, k - 1) + if q > 0 {
            "      "@ + pad_right(good_at(k - 1).title(), 14) + ": "@ + num(q as int) + "\n"@
        } else {
            Seq::empty()
        }
    }
}

/// The comprador's report: location, finances, hold, ship.
pub open spec fn status_text(g: Game) -> Seq<char> {
    "\nComprador's Report\n"@ + "   Location    : "@ + g.location.title() + "\n"@ + "   Cash        : "@
        + num(g.cash as int) + "\n"@ + "   Bank        : "@ + num(g.bank as int) + "\n"@
        + "   Debt        : "@ + num(g.debt as int) + "\n"@ + "   Net Worth   : "@ + num(g.worth())
        + "\n"@ + "   Hold ("@ + pad_left(num(g.hold.cap() as int), 3) + ") : "@ + num(
        total(g.hold.cargo()),
    ) + " used, "@ + num(g.hold.cap() - total(g.hold.cargo())) + " free\n"@ + cargo_lines(g, 4)
        + "   Guns        : "@ + num(g.guns as int) + "   Ship: "@ + num(g.health as int) + "/"@
        + num(MAX_HEALTH as int) + "\n"@
}

/// The price lines for the goods at slots `0..k`.
pub open spec fn price_lines(g: Game, k: int) -> Seq<char>
    decreases k,
{
    if k <= 0 {
        Seq::empty()
    } else {
        price_lines(g, k - 1) + "   "@ + pad_right(good_at(k - 1).title(), 14) + ": "@ + num(
            g.market@[k - 1] as int,
        ) + "\n"@
    }
}

/// The current port's prices.
pub open spec fn prices_text(g: Game) -> Seq<char> {
    "\n"@ + g.location.title() + " prices per unit are now:\n"@ + price_lines(g, 4)
}

/// The travel menu lines for ports numbered `1..=k`.
pub open spec fn menu_lines(k: int) -> Seq<char>
    decreases k,
{
    if k <= 0 {
        Seq::empty()
    } else {
        menu_lines(k - 1) + "  "@ + num(k) + ") "@ + port_numbered(k).title() + "\n"@
    }
}

/// The travel menu.
pub open spec fn travel_menu_text() -> Seq<char> {
    "\nWhere do you wish to travel?\n"@ + menu_lines(7)
}

/// Append `s` padded on the right to width `w`.
fn push_padded_right(out: &mut Vec<char>, s: &str, w: usize)
    ensures
        final(out)@ == old(out)@ + pad_right(s@, w as nat),
{
    let t = to_chars(s);
    let ghost start = out@;
    out.append(&mut t.clone());
    let mut n = t.len();
    let ghost pad_len: nat = if t@.len() >= w { 0 } else { (w - t@.len()) as nat };
    while n < w
        invariant
            t@ == s@,
            t@.len() <= n <= w || (n == t@.len() && n >= w),
            out@ == start + t@ + Seq::new((n - t@.len()) as nat, |i: int| ' '),
        decreases w - n,
    {
        let ghost before = out@;
        out.push(' ');
        assert(Seq::new((n + 1 - t@.len()) as nat, |i: int| ' ') == Seq::new((n - t@.len()) as nat, |i: int| ' ').push(' '));
        n = n + 1;
    }
    proof {
        if t@.len() >= w {
            assert(Seq::new(0nat, |i: int| ' ') == Seq::<char>::empty());
            assert(out@ == start + s@);
        }
    }
}

/// Append `n` padded on the left to width `w`.
fn push_num_padded_left(out: &mut Vec<char>, n: u64, w: usize)
    ensures
        final(out)@ == old(out)@ + pad_left(num(n as int), w as nat),
{
    let mut d: Vec<char> = Vec::new();
    push_decimal(&mut d, n);
    assert(d@ == num(n as int));
    let mut k = d.len();
    let ghost start = out@;
    while k < w
        invariant
            d@ == num(n as int),
            d@.len() <= k <= w || (k == d@.len() && k >= w),
            out@ == start + Seq::new((k - d@.len()) as nat, |i: int| ' '),
        decreases w - k,
    {
        out.push(' ');
        assert(Seq::new((k + 1 - d@.len()) as nat, |i: int| ' ') == Seq::new((k - d@.len()) as nat, |i: int| ' ').push(' '));
        k = k + 1;
    }
    proof {
        if d@.len() >= w {
            assert(Seq::new(0nat, |i: int| ' ') == Seq::<char>::empty());
        }
    }
    out.append(&mut d);
}

/// `status_text`, built.
pub fn status_chars(g: &Game) -> (r: Vec<char>)
    requires
        g.wf(),
    ensures
        r@ == status_text(*g),
{
    proof {
        g.hold.lemma_len();
    }
    let mut out = to_chars("\nComprador's Report\n");
    push_str(&mut out, "   Location    : ");
    push_str(&mut out, g.location.name());
    push_str(&mut out, "\n");
    push_str(&mut out, "   Cash        : ");
    push_decimal(&mut out, g.cash as u64);
    push_str(&mut out, "\n");
    push_str(&mut out, "   Bank        : ");
    push_decimal(&mut out, g.bank);
    push_str(&mut out, "\n");
    push_str(&mut out, "   Debt        : ");
    push_decimal(&mut out, g.debt);
    push_str(&mut out, "\n");
    push_str(&mut out, "   Net Worth   : ");
    push_decimal(&mut out, g.net_worth());
    push_str(&mut out, "\n");
    push_str(&mut out, "   Hold (");
    push_num_padded_left(&mut out, g.hold.capacity() as u64, 3);
    push_str(&mut out, ") : ");
    push_decimal(&mut out, g.hold.used() as u64);
    push_str(&mut out, " used, ");
    push_decimal(&mut out, g.hold.free() as u64);
    push_str(&mut out, " free\n");
    let ghost before = out@;
    let mut k: usize = 0;
    while k < 4
        invariant
            k <= 4,
            out@ == before + cargo_lines(*g, k as int),
            g.hold.cargo().len() == 4,
        decreases 4 - k,
    {
        let good = Good::from_index(k);
        let q = g.hold.quantity(good);
        if q > 0 {
            push_str(&mut out, "      ");
            push_padded_right(&mut out, good.name(), 14);
            push_str(&mut out, ": ");
            push_decimal(&mut out, q as u64);
            push_str(&mut out, "\n");
        }
        proof {
            assert(cargo_lines(*g, k as int + 1) == cargo_lines(*g, k as int) + if q > 0 {
                "      "@ + pad_right(good.title(), 14) + ": "@ + num(q as int) + "\n"@
            } else {
                Seq::<char>::empty()
            });
        }
        k = k + 1;
    }
    push_str(&mut out, "   Guns        : ");
    push_decimal(&mut out, g.guns as u64);
    push_str(&mut out, "   Ship: ");
    push_decimal(&mut out, g.health as u64);
    push_str(&mut out, "/");
    push_decimal(&mut out, MAX_HEALTH as u64);
    push_str(&mut out, "\n");
    assert(out@ == status_text(*g));
    out
}

/// `prices_text`, built.
pub fn prices_chars(g: &Game) -> (r: Vec<char>)
    ensures
        r@ == prices_text(*g),
{
    proof {
        g.market.lemma_len();
    }
    let mut out = to_chars("\n");
    push_str(&mut out, g.location.name());
    push_str(&mut out, " prices per unit are now:\n");
    let ghost before = out@;
    let mut k: usize = 0;
    while k < 4
        invariant
            k <= 4,
            out@ == before + price_lines(*g, k as int),
            g.market@.len() == 4,
        decreases 4 - k,
    {
        let good = Good::from_index(k);
        push_str(&mut out, "   ");
        push_padded_right(&mut out, good.name(), 14);
        push_str(&mut out, ": ");
        push_decimal(&mut out, g.market.price(good) as u64);
        push_str(&mut out, "\n");
        k = k + 1;
    }
    out
}

/// `travel_menu_text`, built.
pub fn travel_menu_chars() -> (r: Vec<char>)
    ensures
        r@ == travel_menu_text(),
{
    let mut out = to_chars("\nWhere do you wish to travel?\n");
    let ghost before = out@;
    let mut k: u32 = 1;
    while k <= 7
        invariant
            1 <= k <= 8,
            out@ == before + menu_lines(k - 1),
        decreases 8 - k,
    {
        let p = Port::from_menu_number(k).unwrap();
        push_str(&mut out, "  ");
        push_decimal(&mut out, k as u64);
        push_str(&mut out, ") ");
        push_str(&mut out, p.name());
        push_str(&mut out, "\n");
        k = k + 1;
    }
    out
}

/// Render the comprador's report.
pub fn render_status(io: &mut ScriptedIo, game: &Game)
    requires
        game.wf(),
    ensures
        final(io).transcript() == old(io).transcript() + status_text(*game),
        final(io).remaining() == old(io).remaining(),
{
    let t = chars_to_string(&status_chars(game));
    io.put(t.as_str());
}

/// Render the current port's prices.
pub fn render_prices(io: &mut ScriptedIo, game: &Game)
    ensures
        final(io).transcript() == old(io).transcript() + prices_text(*game),
        final(io).remaining() == old(io).remaining(),
{
    let t = chars_to_string(&prices_chars(game));
    io.put(t.as_str());
}

/// Render the travel menu.
pub fn render_travel_menu(io: &mut ScriptedIo)
    ensures
        final(io).transcript() == old(io).transcript() + travel_menu_text(),
        final(io).remaining() == old(io).remaining(),
{
    let t = chars_to_string(&travel_menu_chars());
    io.put(t.as_str());
}

} // verus!
