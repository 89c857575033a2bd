//! Save and restore of a whole game as JSON text.

use vstd::prelude::*;
use crate::combat::Battle;
use crate::economy::{EconomyMode, same_text};
use crate::game::{Game, Outcome};
use crate::market::{Hold, Market, total};
use crate::rng::Rng;
use crate::text::{
    decimal, push_decimal, push_str, to_chars, chars_to_string, parse_u32, parse_u64,
    parse_u32_spec, parse_u64_spec, trim, trim_chars, lowercase,
};
use crate::scan::{
    find_from, find_char, skip_ws, digits_end, find_seq, find_ch, skip_whitespace, end_of_digits,
    slice_chars, lemma_find_from_found,
};
use crate::game::MAX_HEALTH;
use crate::travel::Port;

verus! {

/// Save-format version; saves of any other version are refused.
pub const SAVE_VERSION: u32 = 1;

/// What the game is waiting for, which decides the actions valid next.
#[derive(Debug, Clone, PartialEq, Eq)]
pub enum Pending {
    /// Awaiting a normal command.
    Command,
    /// Mid-battle: awaiting a combat decision. Holds the battle's parts.
    Combat { enemies: Vec<u32>, sunk: u32 },
}

/// A reloadable snapshot: the world, the generator's live state, what the game awaits,
/// and a one-line note on the last event.
#[derive(Debug, Clone)]
pub struct Save {
    pub game: Game,
    pub rng_state: u64,
    pub pending: Pending,
    pub last_event: String,
}

/// A copy of a list of hull points.
pub(crate) fn copy_hps(v: &[u32]) -> (r: Vec<u32>)
    ensures
        r@ == v@,
{
    vstd::slice::slice_to_vec(v)
}

impl Save {
    /// The live battle when mid-combat, else `None`.
    pub fn battle(&self) -> (b: Option<Battle>)
        ensures
            match self.pending {
                Pending::Command => b is None,
                Pending::Combat { enemies, sunk } => b matches Some(x) && x.ships() == enemies@
                    && x.tally() == sunk,
            },
    {
        match &self.pending {
            Pending::Combat { enemies, sunk } => Some(Battle::from_parts(copy_hps(enemies.as_slice()), *sunk)),
            Pending::Command => None,
        }
    }
}

/// How a character is written inside a JSON string.
pub open spec fn esc_char(c: char) -> Seq<char> {
    if c == '"' {
        seq!['\\', '"']
    } else if c == '\\' {
        seq!['\\', '\\']
    } else if c == '\n' {
        seq!['\\', 'n']
    } else if c == '\t' {
        seq!['\\', 't']
    } else {
        seq![c]
    }
}

/// A string's characters escaped for a JSON string body.
pub open spec fn escape(s: Seq<char>) -> Seq<char>
    decreases s.len(),
{
    if s.len() == 0 {
        Seq::empty()
    } else {
        escape(s.drop_last()) + esc_char(s.last())
    }
}

/// Numbers written in order, separated by `", "`.
pub open spec fn number_list(s: Seq<u32>) -> Seq<char>
    decreases s.len(),
{
    if s.len() == 0 {
        Seq::empty()
    } else if s.len() == 1 {
        decimal(s[0] as nat)
    } else {
        number_list(s.drop_last()) + ", "@ + decimal(s.last() as nat)
    }
}

/// The word a save uses for a game's outcome.
pub open spec fn outcome_word(o: Option<Outcome>) -> Seq<char> {
    match o {
        None => "playing"@,
        Some(Outcome::Won) => "won"@,
        Some(Outcome::ShipDestroyed) => "ship_destroyed"@,
    }
}

/// A JSON boolean.
pub open spec fn bool_word(b: bool) -> Seq<char> {
    if b {
        "true"@
    } else {
        "false"@
    }
}

/// Free hold space as a save reports it: capacity less cargo, floored at zero.
pub open spec fn reported_free(h: Hold) -> nat {
    if total(h.cargo()) >= h.cap() {
        0
    } else {
        (h.cap() - total(h.cargo())) as nat
    }
}

/// The keys a save's text is written with.
pub enum Field {
    Version,
    Pending,
    Combat,
    EnemyHps,
    Sunk,
    LastEvent,
    Outcome,
    Mode,
    Location,
    AtHome,
    Cash,
    Bank,
    Debt,
    NetWorth,
    Guns,
    Health,
    HoldCapacity,
    HoldFree,
    Hold,
    Warehouse,
    Prices,
    RngState,
    Opium,
    Silk,
    Arms,
    General,
}

impl Field {
    /// The key's name as written.
    pub open spec fn name(self) -> Seq<char> {
        match self {
            Field::Version => "version"@,
            Field::Pending => "pending"@,
            Field::Combat => "combat"@,
            Field::EnemyHps => "enemy_hps"@,
            Field::Sunk => "sunk"@,
            Field::LastEvent => "last_event"@,
            Field::Outcome => "outcome"@,
            Field::Mode => "mode"@,
            Field::Location => "location"@,
            Field::AtHome => "at_home"@,
            Field::Cash => "cash"@,
            Field::Bank => "bank"@,
            Field::Debt => "debt"@,
            Field::NetWorth => "net_worth"@,
            Field::Guns => "guns"@,
            Field::Health => "health"@,
            Field::HoldCapacity => "hold_capacity"@,
            Field::HoldFree => "hold_free"@,
            Field::Hold => "hold"@,
            Field::Warehouse => "warehouse"@,
            Field::Prices => "prices"@,
            Field::RngState => "rng_state"@,
            Field::Opium => "opium"@,
            Field::Silk => "silk"@,
            Field::Arms => "arms"@,
            Field::General => "general"@,
        }
    }
}

/// A piece of save text: a field's key, written `"key":`, or the text between keys.
pub enum Piece {
    Key(Field),
    Text(Seq<char>),
}

impl Piece {
    /// The characters of the piece.
    pub open spec fn chars(self) -> Seq<char> {
        match self {
            Piece::Key(f) => key_pattern(f.name()),
            Piece::Text(t) => t,
        }
    }
}

/// Pieces written one after the other.
pub open spec fn joined(ps: Seq<Piece>) -> Seq<char>
    decreases ps.len(),
{
    if ps.len() == 0 {
        Seq::empty()
    } else {
        joined(ps.drop_last()) + ps.last().chars()
    }
}

/// The text after a number field's key: a space, the number, then `tail`.
pub open spec fn number_text(n: nat, tail: Seq<char>) -> Seq<char> {
    " "@ + decimal(n) + tail
}

/// The text after a string field's key: the quoted `body`, then the line's end.
pub open spec fn string_text(body: Seq<char>) -> Seq<char> {
    " \""@ + body + "\",\n  "@
}

/// The pieces of the `pending` field's value: the word `command`, or an object
/// `{ "combat": { "enemy_hps": [..], "sunk": n } }` for a battle in progress.
pub open spec fn pending_pieces(p: Pending) -> Seq<Piece> {
    match p {
        Pending::Command => seq![Piece::Text(string_text("command"@))],
        Pending::Combat { enemies, sunk } => seq![
            Piece::Text(" { "@),
            Piece::Key(Field::Combat),
            Piece::Text(" { "@),
            Piece::Key(Field::EnemyHps),
            Piece::Text(" ["@ + number_list(enemies@) + "], "@),
            Piece::Key(Field::Sunk),
            Piece::Text(number_text(sunk as nat, " } },\n  "@)),
        ],
    }
}

/// The pieces of a four-slot object `{ "opium": a, "silk": b, "arms": c, "general": d }`,
/// `tail` ending the line.
pub open spec fn slots_pieces(u: Seq<u32>, tail: Seq<char>) -> Seq<Piece> {
    seq![
        Piece::Text(" { "@),
        Piece::Key(Field::Opium),
        Piece::Text(number_text(u[0] as nat, ", "@)),
        Piece::Key(Field::Silk),
        Piece::Text(number_text(u[1] as nat, ", "@)),
        Piece::Key(Field::Arms),
        Piece::Text(number_text(u[2] as nat, ", "@)),
        Piece::Key(Field::General),
        Piece::Text(number_text(u[3] as nat, " }"@ + tail)),
    ]
}

/// The line end between fields.
pub open spec fn eol() -> Seq<char> {
    ",\n  "@
}

/// The opening pieces, up to the `pending` key.
pub open spec fn head_pieces() -> Seq<Piece> {
    seq![
        Piece::Text("{\n  "@),
        Piece::Key(Field::Version),
        Piece::Text(number_text(SAVE_VERSION as nat, eol())),
        Piece::Key(Field::Pending),
    ]
}

/// The pieces from the `last_event` key to the `hold` key.
pub open spec fn middle_pieces(s: Save) -> Seq<Piece> {
    let g = s.game;
    seq![
        Piece::Key(Field::LastEvent),
        Piece::Text(string_text(escape(s.last_event@))),
        Piece::Key(Field::Outcome),
        Piece::Text(string_text(outcome_word(g.outcome))),
        Piece::Key(Field::Mode),
        Piece::Text(string_text(g.mode.title())),
        Piece::Key(Field::Location),
        Piece::Text(string_text(g.location.title())),
        Piece::Key(Field::AtHome),
        Piece::Text(" "@ + bool_word(g.location == Port::HongKong) + eol()),
        Piece::Key(Field::Cash),
        Piece::Text(number_text(g.cash as nat, eol())),
        Piece::Key(Field::Bank),
        Piece::Text(number_text(g.bank as nat, eol())),
        Piece::Key(Field::Debt),
        Piece::Text(number_text(g.debt as nat, eol())),
        Piece::Key(Field::NetWorth),
        Piece::Text(number_text(g.worth() as nat, eol())),
        Piece::Key(Field::Guns),
        Piece::Text(number_text(g.guns as nat, eol())),
        Piece::Key(Field::Health),
        Piece::Text(number_text(g.health as nat, eol())),
        Piece::Key(Field::HoldCapacity),
        Piece::Text(number_text(g.hold.cap() as nat, eol())),
        Piece::Key(Field::HoldFree),
        Piece::Text(number_text(reported_free(g.hold), eol())),
        Piece::Key(Field::Hold),
    ]
}

/// The closing pieces, from the `rng_state` key.
pub open spec fn tail_pieces(s: Save) -> Seq<Piece> {
    seq![Piece::Key(Field::RngState), Piece::Text(number_text(s.rng_state as nat, "\n}\n"@))]
}

/// The pieces of a save's JSON text: one field per line, in a fixed order.
pub open spec fn save_pieces(s: Save) -> Seq<Piece> {
    head_pieces() + pending_pieces(s.pending) + middle_pieces(s) + slots_pieces(
        s.game.hold.cargo(),
        eol(),
    ) + seq![Piece::Key(Field::Warehouse)] + slots_pieces(s.game.warehouse@, eol()) + seq![
        Piece::Key(Field::Prices),
    ] + slots_pieces(s.game.market@, eol()) + tail_pieces(s)
}

/// A save's text, run of pieces by run of pieces.
proof fn lemma_save_pieces_joined(s: Save)
    ensures
        json_text(s) == joined(head_pieces()) + joined(pending_pieces(s.pending)) + joined(
            middle_pieces(s),
        ) + joined(slots_pieces(s.game.hold.cargo(), eol())) + joined(
            seq![Piece::Key(Field::Warehouse)],
        ) + joined(slots_pieces(s.game.warehouse@, eol())) + joined(seq![Piece::Key(Field::Prices)])
            + joined(slots_pieces(s.game.market@, eol())) + joined(tail_pieces(s)),
{
    let a = head_pieces();
    let b = pending_pieces(s.pending);
    let c = middle_pieces(s);
    let d = slots_pieces(s.game.hold.cargo(), eol());
    let e = seq![Piece::Key(Field::Warehouse)];
    let f = slots_pieces(s.game.warehouse@, eol());
    let g = seq![Piece::Key(Field::Prices)];
    let h = slots_pieces(s.game.market@, eol());
    let i = tail_pieces(s);
    lemma_joined_concat(a, b);
    lemma_joined_concat(a + b, c);
    lemma_joined_concat(a + b + c, d);
    lemma_joined_concat(a + b + c + d, e);
    lemma_joined_concat(a + b + c + d + e, f);
    lemma_joined_concat(a + b + c + d + e + f, g);
    lemma_joined_concat(a + b + c + d + e + f + g, h);
    lemma_joined_concat(a + b + c + d + e + f + g + h, i);
}

/// The JSON text of a save.
pub open spec fn json_text(s: Save) -> Seq<char> {
    joined(save_pieces(s))
}

/// Writing one more piece extends the text by that piece.
pub proof fn lemma_joined_push(ps: Seq<Piece>, p: Piece)
    ensures
        joined(ps.push(p)) == joined(ps) + p.chars(),
{
    assert(ps.push(p).drop_last() == ps);
}

/// The text of two runs of pieces is the text of the first, then of the second.
pub proof fn lemma_joined_concat(a: Seq<Piece>, b: Seq<Piece>)
    ensures
        joined(a + b) == joined(a) + joined(b),
    decreases b.len(),
{
    if b.len() == 0 {
        assert(a + b == a);
        assert(joined(a) + joined(b) == joined(a));
    } else {
        lemma_joined_concat(a, b.drop_last());
        assert((a + b).drop_last() == a + b.drop_last());
        assert((a + b).last() == b.last());
        assert(joined(a) + joined(b.drop_last()) + b.last().chars() == joined(a) + (joined(
            b.drop_last(),
        ) + b.last().chars()));
    }
}

/// Append `s` escaped for a JSON string body.
fn push_escaped(out: &mut Vec<char>, s: &Vec<char>)
    ensures
        final(out)@ == old(out)@ + escape(s@),
{
    let ghost start = out@;
    let mut i: usize = 0;
    while i < s.len()
        invariant
            i <= s@.len(),
            out@ == start + escape(s@.take(i as int)),
        decreases s@.len() - i,
    {
        let c = s[i];
        proof {
            assert(s@.take(i as int + 1).drop_last() == s@.take(i as int));
        }
        if c == '"' {
            out.push('\\');
            out.push('"');
        } else if c == '\\' {
            out.push('\\');
            out.push('\\');
        } else if c == '\n' {
            out.push('\\');
            out.push('n');
        } else if c == '\t' {
            out.push('\\');
            out.push('t');
        } else {
            out.push(c);
        }
        proof {
            assert(out@ == start + escape(s@.take(i as int + 1)));
        }
        i = i + 1;
    }
    assert(s@.take(i as int) == s@);
}

/// Append a list of numbers separated by `", "`.
fn push_number_list(out: &mut Vec<char>, v: &Vec<u32>)
    ensures
        final(out)@ == old(out)@ + number_list(v@),
{
    let ghost start = out@;
    let mut i: usize = 0;
    while i < v.len()
        invariant
            i <= v@.len(),
            out@ == start + number_list(v@.take(i as int)),
        decreases v@.len() - i,
    {
        proof {
            assert(v@.take(i as int + 1).drop_last() == v@.take(i as int));
        }
        if i > 0 {
            push_str(out, ", ");
        }
        push_decimal(out, v[i] as u64);
        proof {
            if i == 0 {
                assert(number_list(v@.take(1)) == decimal(v@[0] as nat));
            }
        }
        i = i + 1;
    }
    assert(v@.take(i as int) == v@);
}

/// Append a field's key, `"key":`.
fn push_key(out: &mut Vec<char>, k: &str)
    ensures
        final(out)@ == old(out)@ + key_pattern(k@),
{
    let ghost start = out@;
    out.push('"');
    push_str(out, k);
    out.push('"');
    out.push(':');
    assert(out@ == start + key_pattern(k@));
}

/// Append a number field's text.
fn push_number_text(out: &mut Vec<char>, n: u64, tail: &str)
    ensures
        final(out)@ == old(out)@ + number_text(n as nat, tail@),
{
    let ghost start = out@;
    push_str(out, " ");
    push_decimal(out, n);
    push_str(out, tail);
    assert(out@ == start + number_text(n as nat, tail@));
}

/// Append a string field's text.
fn push_string_text(out: &mut Vec<char>, body: &Vec<char>)
    requires
        true,
    ensures
        final(out)@ == old(out)@ + string_text(body@),
{
    let ghost start = out@;
    push_str(out, " \"");
    let mut b = body.clone();
    assert(b@ == body@);
    out.append(&mut b);
    push_str(out, "\",\n  ");
    assert(out@ == start + string_text(body@));
}

/// Append a four-slot object's pieces.
fn push_slots(out: &mut Vec<char>, u: &[u32; 4], tail: &str)
    ensures
        final(out)@ == old(out)@ + joined(slots_pieces(u@, tail@)),
{
    let ghost start = out@;
    let ghost ps = slots_pieces(u@, tail@);
    push_str(out, " { ");
    push_key(out, "opium");
    push_number_text(out, u[0] as u64, ", ");
    push_key(out, "silk");
    push_number_text(out, u[1] as u64, ", ");
    push_key(out, "arms");
    push_number_text(out, u[2] as u64, ", ");
    push_key(out, "general");
    let ghost before = out@;
    push_str(out, " ");
    push_decimal(out, u[3] as u64);
    push_str(out, " }");
    push_str(out, tail);
    assert(out@ == before + number_text(u[3] as nat, " }"@ + tail@));
    proof {
        reveal_with_fuel(joined, 10);
        assert(joined(ps) == " { "@ + key_pattern("opium"@) + number_text(u[0] as nat, ", "@)
            + key_pattern("silk"@) + number_text(u[1] as nat, ", "@) + key_pattern("arms"@)
            + number_text(u[2] as nat, ", "@) + key_pattern("general"@) + number_text(
            u[3] as nat,
            " }"@ + tail@,
        ));
    }
    assert(out@ == start + joined(ps));
}

/// Append the `pending` field's value.
fn push_pending(out: &mut Vec<char>, p: &Pending)
    ensures
        final(out)@ == old(out)@ + joined(pending_pieces(*p)),
{
    let ghost start = out@;
    match p {
        Pending::Command => {
            push_string_text(out, &to_chars("command"));
            proof {
                reveal_with_fuel(joined, 2);
            }
        },
        Pending::Combat { enemies, sunk } => {
            push_str(out, " { ");
            push_key(out, "combat");
            push_str(out, " { ");
            push_key(out, "enemy_hps");
            let ghost before = out@;
            push_str(out, " [");
            push_number_list(out, enemies);
            push_str(out, "], ");
            assert(out@ == before + (" ["@ + number_list(enemies@) + "], "@));
            push_key(out, "sunk");
            push_number_text(out, *sunk as u64, " } },\n  ");
            proof {
                reveal_with_fuel(joined, 8);
                assert(joined(pending_pieces(*p)) == " { "@ + key_pattern("combat"@) + " { "@
                    + key_pattern("enemy_hps"@) + (" ["@ + number_list(enemies@) + "], "@)
                    + key_pattern("sunk"@) + number_text(*sunk as nat, " } },\n  "@));
            }
        },
    }
}

/// Append a field's key, keeping `ps` the pieces written since `start`.
fn push_key_piece(
    out: &mut Vec<char>,
    k: &str,
    Ghost(f): Ghost<Field>,
    Ghost(start): Ghost<Seq<char>>,
    Ghost(ps): Ghost<Seq<Piece>>,
) -> (r: Ghost<Seq<Piece>>)
    requires
        old(out)@ == start + joined(ps),
        k@ == f.name(),
    ensures
        r@ == ps.push(Piece::Key(f)),
        final(out)@ == start + joined(r@),
{
    push_key(out, k);
    proof {
        lemma_joined_push(ps, Piece::Key(f));
    }
    Ghost(ps.push(Piece::Key(f)))
}

/// Append a number field's text, keeping `ps` the pieces written since `start`.
fn push_number_piece(
    out: &mut Vec<char>,
    n: u64,
    tail: &str,
    Ghost(start): Ghost<Seq<char>>,
    Ghost(ps): Ghost<Seq<Piece>>,
) -> (r: Ghost<Seq<Piece>>)
    requires
        old(out)@ == start + joined(ps),
    ensures
        r@ == ps.push(Piece::Text(number_text(n as nat, tail@))),
        final(out)@ == start + joined(r@),
{
    push_number_text(out, n, tail);
    proof {
        lemma_joined_push(ps, Piece::Text(number_text(n as nat, tail@)));
    }
    Ghost(ps.push(Piece::Text(number_text(n as nat, tail@))))
}

/// Append a string field's text, keeping `ps` the pieces written since `start`.
fn push_string_piece(
    out: &mut Vec<char>,
    body: &Vec<char>,
    Ghost(start): Ghost<Seq<char>>,
    Ghost(ps): Ghost<Seq<Piece>>,
) -> (r: Ghost<Seq<Piece>>)
    requires
        old(out)@ == start + joined(ps),
    ensures
        r@ == ps.push(Piece::Text(string_text(body@))),
        final(out)@ == start + joined(r@),
{
    push_string_text(out, body);
    proof {
        lemma_joined_push(ps, Piece::Text(string_text(body@)));
    }
    Ghost(ps.push(Piece::Text(string_text(body@))))
}

/// Append the pieces from the `last_event` key to the `hold` key.
fn push_middle(out: &mut Vec<char>, save: &Save)
    ensures
        final(out)@ == old(out)@ + joined(middle_pieces(*save)),
{
    let ghost start = out@;
    let g = &save.game;
    assert(out@ == start + joined(Seq::<Piece>::empty()));
    let ps = push_key_piece(out, "last_event", Ghost(Field::LastEvent), Ghost(start), Ghost(Seq::empty()));
    let mut ev: Vec<char> = Vec::new();
    push_escaped(&mut ev, &to_chars(save.last_event.as_str()));
    let ps = push_string_piece(out, &ev, Ghost(start), ps);
    let ps = push_key_piece(out, "outcome", Ghost(Field::Outcome), Ghost(start), ps);
    let word = to_chars(
        match g.outcome {
            None => "playing",
            Some(Outcome::Won) => "won",
            Some(Outcome::ShipDestroyed) => "ship_destroyed",
        },
    );
    let ps = push_string_piece(out, &word, Ghost(start), ps);
    let ps = push_key_piece(out, "mode", Ghost(Field::Mode), Ghost(start), ps);
    let ps = push_string_piece(out, &to_chars(g.mode.name()), Ghost(start), ps);
    let ps = push_key_piece(out, "location", Ghost(Field::Location), Ghost(start), ps);
    let ps = push_string_piece(out, &to_chars(g.location.name()), Ghost(start), ps);
    let ps = push_key_piece(out, "at_home", Ghost(Field::AtHome), Ghost(start), ps);
    let ghost b0 = out@;
    push_str(out, " ");
    push_str(out, if g.location == Port::HOME { "true" } else { "false" });
    push_str(out, ",\n  ");
    let ghost at_home = Piece::Text(" "@ + bool_word(g.location == Port::HongKong) + eol());
    assert(out@ == b0 + at_home.chars());
    proof {
        lemma_joined_push(ps@, at_home);
        assert(start + joined(ps@) + at_home.chars() == start + joined(ps@.push(at_home)));
    }
    let ps: Ghost<Seq<Piece>> = Ghost(ps@.push(at_home));
    let ps = push_key_piece(out, "cash", Ghost(Field::Cash), Ghost(start), ps);
    let ps = push_number_piece(out, g.cash as u64, ",\n  ", Ghost(start), ps);
    let ps = push_key_piece(out, "bank", Ghost(Field::Bank), Ghost(start), ps);
    let ps = push_number_piece(out, g.bank, ",\n  ", Ghost(start), ps);
    let ps = push_key_piece(out, "debt", Ghost(Field::Debt), Ghost(start), ps);
    let ps = push_number_piece(out, g.debt, ",\n  ", Ghost(start), ps);
    let ps = push_key_piece(out, "net_worth", Ghost(Field::NetWorth), Ghost(start), ps);
    let ps = push_number_piece(out, g.net_worth(), ",\n  ", Ghost(start), ps);
    let ps = push_key_piece(out, "guns", Ghost(Field::Guns), Ghost(start), ps);
    let ps = push_number_piece(out, g.guns as u64, ",\n  ", Ghost(start), ps);
    let ps = push_key_piece(out, "health", Ghost(Field::Health), Ghost(start), ps);
    let ps = push_number_piece(out, g.health as u64, ",\n  ", Ghost(start), ps);
    let ps = push_key_piece(out, "hold_capacity", Ghost(Field::HoldCapacity), Ghost(start), ps);
    let ps = push_number_piece(out, g.hold.capacity() as u64, ",\n  ", Ghost(start), ps);
    let ps = push_key_piece(out, "hold_free", Ghost(Field::HoldFree), Ghost(start), ps);
    let ps = push_number_piece(out, hold_free(&g.hold), ",\n  ", Ghost(start), ps);
    let ps = push_key_piece(out, "hold", Ghost(Field::Hold), Ghost(start), ps);
    assert(ps@ =~= middle_pieces(*save));
}

/// Serialize a save to its JSON text.
pub fn to_json(save: &Save) -> (j: String)
    ensures
        j@ == json_text(*save),
{
    let g = &save.game;
    let mut out: Vec<char> = to_chars("{\n  ");
    push_key(&mut out, "version");
    push_number_text(&mut out, SAVE_VERSION as u64, ",\n  ");
    push_key(&mut out, "pending");
    proof {
        reveal_with_fuel(joined, 5);
        assert(out@ == joined(head_pieces()));
    }
    push_pending(&mut out, &save.pending);
    push_middle(&mut out, save);
    push_slots(&mut out, &g.hold.units(), ",\n  ");
    let ghost w0 = out@;
    push_key(&mut out, "warehouse");
    proof {
        reveal_with_fuel(joined, 2);
        assert(out@ == w0 + joined(seq![Piece::Key(Field::Warehouse)]));
    }
    push_slots(&mut out, &g.warehouse, ",\n  ");
    let ghost p0 = out@;
    push_key(&mut out, "prices");
    proof {
        reveal_with_fuel(joined, 2);
        assert(out@ == p0 + joined(seq![Piece::Key(Field::Prices)]));
    }
    push_slots(&mut out, &g.market.prices(), ",\n  ");
    let ghost r0 = out@;
    push_key(&mut out, "rng_state");
    push_number_text(&mut out, save.rng_state, "\n}\n");
    proof {
        reveal_with_fuel(joined, 3);
        assert(out@ == r0 + joined(tail_pieces(*save)));
        lemma_save_pieces_joined(*save);
    }
    chars_to_string(&out)
}

/// Free hold space, floored at zero, for reporting.
fn hold_free(h: &Hold) -> (n: u64)
    ensures
        n == reported_free(*h),
{
    let u = h.units();
    proof {
        h.lemma_len();
    }
    let used: u64 = u[0] as u64 + u[1] as u64 + u[2] as u64 + u[3] as u64;
    let cap = h.capacity() as u64;
    if used >= cap {
        0
    } else {
        cap - used
    }
}

/// Build the opening save of a brand-new game.
pub fn new_save(mode: EconomyMode, seed: u64) -> (s: Save)
    ensures
        s.game.fresh(mode, Rng::new_state(seed)),
        s.rng_state == crate::market::roll_prices(crate::economy::bias_row(mode, Port::HongKong), Rng::new_state(seed), 4).1,
        s.pending == Pending::Command,
        s.last_event@ == "New game. Welcome, Taipan."@,
{
    let mut rng = Rng::new(seed);
    let game = Game::new_with_mode(mode, &mut rng);
    Save {
        game,
        rng_state: rng.state(),
        pending: Pending::Command,
        last_event: String::from_str("New game. Welcome, Taipan."),
    }
}

/// Snapshot a live game between turns (always awaiting a command).
pub fn save_from(game: &Game, rng: &Rng, last_event: &str) -> (s: Save)
    ensures
        s.game == *game,
        s.rng_state == rng@,
        s.pending == Pending::Command,
        s.last_event@ == last_event@,
{
    Save { game: *game, rng_state: rng.state(), pending: Pending::Command, last_event: String::from_str(last_event) }
}

/// The search pattern `"key":` for a field.
pub open spec fn key_pattern(k: Seq<char>) -> Seq<char> {
    seq!['"'] + k + seq!['"', ':']
}

/// Where the value of the first field named `k` begins: just past `"k":`.
pub open spec fn field_start(t: Seq<char>, k: Seq<char>) -> Option<int> {
    match find_from(t, key_pattern(k), 0) {
        Some(i) => Some(i + k.len() + 3),
        None => None,
    }
}

/// The digits of a number value starting at `a`, after any whitespace.
pub open spec fn number_token(t: Seq<char>, a: int) -> Seq<char> {
    let b = skip_ws(t, a);
    t.subrange(b, digits_end(t, b))
}

/// "missing field 'k'"
pub open spec fn missing_msg(k: Seq<char>) -> Seq<char> {
    "missing field '"@ + k + "'"@
}

/// "field 'k'" followed by `tail`.
pub open spec fn field_msg(k: Seq<char>, tail: Seq<char>) -> Seq<char> {
    "field '"@ + k + tail
}

/// The first field named `k`, read as a number.
pub open spec fn number_field(t: Seq<char>, k: Seq<char>) -> Result<u64, Seq<char>> {
    match field_start(t, k) {
        None => Err(missing_msg(k)),
        Some(a) => match parse_u64_spec(number_token(t, a)) {
            Some(v) => Ok(v),
            None => Err(field_msg(k, "' is not a number"@)),
        },
    }
}

/// The outcome of reading a string body.
pub enum Scanned {
    /// The unescaped body, up to its closing quote.
    Text(Seq<char>),
    /// The text ended before a closing quote.
    Unterminated,
    /// The text ended right after a backslash.
    Dangling,
}

/// The character an escape `\c` stands for.
pub open spec fn unescaped(c: char) -> char {
    if c == 'n' {
        '\n'
    } else if c == 't' {
        '\t'
    } else {
        c
    }
}

/// Read a string body from index `i` up to the first unescaped quote, `acc` holding
/// what has been read so far.
pub open spec fn scan_string(t: Seq<char>, i: int, acc: Seq<char>) -> Scanned
    decreases t.len() - i,
{
    if i < 0 || i >= t.len() {
        Scanned::Unterminated
    } else if t[i] == '"' {
        Scanned::Text(acc)
    } else if t[i] == '\\' {
        if i + 1 >= t.len() {
            Scanned::Dangling
        } else {
            scan_string(t, i + 2, acc.push(unescaped(t[i + 1])))
        }
    } else {
        scan_string(t, i + 1, acc.push(t[i]))
    }
}

/// The first field named `k`, read as a string: from the first quote after the key
/// to the first unescaped quote.
pub open spec fn string_field(t: Seq<char>, k: Seq<char>) -> Result<Seq<char>, Seq<char>> {
    match field_start(t, k) {
        None => Err(missing_msg(k)),
        Some(a) => match find_char(t, '"', a) {
            None => Err(field_msg(k, "' is not a string"@)),
            Some(o) => match scan_string(t, o + 1, Seq::empty()) {
                Scanned::Text(v) => Ok(v),
                Scanned::Unterminated => Err(field_msg(k, "' string not terminated"@)),
                Scanned::Dangling => Err(field_msg(k, "' ends in a dangling escape"@)),
            },
        },
    }
}

/// The number field `inner` inside the object that follows the first field `outer`
/// (up to that object's first closing brace).
pub open spec fn nested_field(t: Seq<char>, outer: Seq<char>, inner: Seq<char>) -> Result<u64, Seq<char>> {
    match field_start(t, outer) {
        None => Err(missing_msg(outer)),
        Some(a) => {
            let rest = t.skip(a);
            match find_char(rest, '}', 0) {
                None => Err(field_msg(outer, "' object not terminated"@)),
                Some(e) => match number_field(rest.take(e), inner) {
                    Ok(v) => Ok(v),
                    Err(m) => Err(outer + "."@ + m),
                },
            }
        },
    }
}

/// A comma-separated piece as a list entry: kept when, trimmed, it reads as a `u32`.
pub open spec fn list_entry(piece: Seq<char>) -> Seq<u32> {
    match parse_u32_spec(trim(piece)) {
        Some(v) => seq![v],
        None => Seq::empty(),
    }
}

/// Numbers of the comma-separated pieces of `s[i..]`, `cur` being the piece begun.
pub open spec fn list_from(s: Seq<char>, i: int, cur: Seq<char>) -> Seq<u32>
    decreases s.len() - i,
{
    if i < 0 || i >= s.len() {
        list_entry(cur)
    } else if s[i] == ',' {
        list_entry(cur) + list_from(s, i + 1, Seq::empty())
    } else {
        list_from(s, i + 1, cur.push(s[i]))
    }
}

/// The hull points listed in a save's `enemy_hps` array.
pub open spec fn enemy_list(t: Seq<char>) -> Result<Seq<u32>, Seq<char>> {
    match find_from(t, "\"enemy_hps\":"@, 0) {
        None => Err("missing enemy_hps"@),
        Some(i) => {
            let rest = t.skip(i + 12);
            match (find_char(rest, '[', 0), find_char(rest, ']', 0)) {
                (None, _) => Err("enemy_hps not an array"@),
                (Some(_), None) => Err("enemy_hps not terminated"@),
                (Some(o), Some(c)) => if c < o {
                    Err("enemy_hps not terminated"@)
                } else {
                    Ok(list_from(rest.subrange(o + 1, c), 0, Seq::empty()))
                },
            }
        },
    }
}

/// The port whose name is exactly `s`.
pub open spec fn port_named(s: Seq<char>) -> Option<Port> {
    if s == Port::HongKong.title() {
        Some(Port::HongKong)
    } else if s == Port::Shanghai.title() {
        Some(Port::Shanghai)
    } else if s == Port::Nagasaki.title() {
        Some(Port::Nagasaki)
    } else if s == Port::Saigon.title() {
        Some(Port::Saigon)
    } else if s == Port::Manila.title() {
        Some(Port::Manila)
    } else if s == Port::Singapore.title() {
        Some(Port::Singapore)
    } else if s == Port::Batavia.title() {
        Some(Port::Batavia)
    } else {
        None
    }
}

/// The outcome a save's word names.
pub open spec fn outcome_named(s: Seq<char>) -> Option<Option<Outcome>> {
    if s == "playing"@ {
        Some(None)
    } else if s == "won"@ {
        Some(Some(Outcome::Won))
    } else if s == "ship_destroyed"@ {
        Some(Some(Outcome::ShipDestroyed))
    } else {
        None
    }
}

/// The economy a save's `mode` names: its exact name as a save writes it, or else
/// whatever `EconomyMode::parse` reads in it.
pub open spec fn mode_named(s: Seq<char>) -> Option<EconomyMode> {
    let w = trim(s);
    if w == "classic"@ {
        Some(EconomyMode::Classic)
    } else if w == "trader"@ {
        Some(EconomyMode::Trader)
    } else {
        EconomyMode::named_by(lowercase(trim(s)))
    }
}

/// Everything a save's text decodes to.
pub struct Decoded {
    pub mode: EconomyMode,
    pub location: Port,
    pub outcome: Option<Outcome>,
    pub cash: u32,
    pub bank: u64,
    pub debt: u64,
    pub guns: u32,
    pub health: u32,
    pub capacity: u32,
    pub units: Seq<u32>,
    pub warehouse: Seq<u32>,
    pub prices: Seq<u32>,
    pub rng_state: u64,
    pub combat: Option<(Seq<u32>, u32)>,
    pub last_event: Seq<char>,
}

/// The four slot values of an object field, or the first error among them.
pub open spec fn slot_fields(t: Seq<char>, outer: Seq<char>) -> Result<Seq<u32>, Seq<char>> {
    let a = nested_field(t, outer, "opium"@);
    let b = nested_field(t, outer, "silk"@);
    let c = nested_field(t, outer, "arms"@);
    let d = nested_field(t, outer, "general"@);
    if a is Err {
        Err(a->Err_0)
    } else if b is Err {
        Err(b->Err_0)
    } else if c is Err {
        Err(c->Err_0)
    } else if d is Err {
        Err(d->Err_0)
    } else {
        Ok(seq![a->Ok_0 as u32, b->Ok_0 as u32, c->Ok_0 as u32, d->Ok_0 as u32])
    }
}

/// "save predates version 1 (no version field); please start a new game"
pub open spec fn predates_msg() -> Seq<char> {
    "save predates version "@ + decimal(SAVE_VERSION as nat) + " (no version field); please start a new game"@
}

/// "save is version v, but this build uses version 1; please start a new game"
pub open spec fn version_msg(v: u32) -> Seq<char> {
    "save is version "@ + decimal(v as nat) + ", but this build uses version "@ + decimal(
        SAVE_VERSION as nat,
    ) + "; please start a new game"@
}

/// "corrupt save: hold carries U units but capacity is C"
pub open spec fn over_capacity_msg(used: nat, cap: u32) -> Seq<char> {
    "corrupt save: hold carries "@ + decimal(used) + " units but capacity is "@ + decimal(cap as nat)
}

/// "corrupt save: health H exceeds the maximum 100"
pub open spec fn over_health_msg(health: u32) -> Seq<char> {
    "corrupt save: health "@ + decimal(health as nat) + " exceeds the maximum "@ + decimal(
        MAX_HEALTH as nat,
    )
}

/// What a save's text decodes to, or the first error met, field by field in a fixed
/// order.
pub open spec fn decode(t: Seq<char>) -> Result<Decoded, Seq<char>> {
    let version = number_field(t, "version"@);
    let mode_s = string_field(t, "mode"@);
    let loc_s = string_field(t, "location"@);
    let out_s = string_field(t, "outcome"@);
    let cash = number_field(t, "cash"@);
    let bank = number_field(t, "bank"@);
    let debt = number_field(t, "debt"@);
    let guns = number_field(t, "guns"@);
    let health = number_field(t, "health"@);
    let cap = number_field(t, "hold_capacity"@);
    let rng = number_field(t, "rng_state"@);
    let units = slot_fields(t, "hold"@);
    let warehouse = slot_fields(t, "warehouse"@);
    let prices = slot_fields(t, "prices"@);
    let combat = find_from(t, "\"combat\":"@, 0) is Some;
    let enemies = enemy_list(t);
    let sunk = nested_field(t, "combat"@, "sunk"@);
    let event = string_field(t, "last_event"@);
    if version is Err {
        Err(predates_msg())
    } else if version->Ok_0 as u32 != SAVE_VERSION {
        Err(version_msg(version->Ok_0 as u32))
    } else if mode_s is Err {
        Err(mode_s->Err_0)
    } else if mode_named(mode_s->Ok_0) is None {
        Err("unknown mode '"@ + mode_s->Ok_0 + "'"@)
    } else if loc_s is Err {
        Err(loc_s->Err_0)
    } else if port_named(loc_s->Ok_0) is None {
        Err("unknown port '"@ + loc_s->Ok_0 + "'"@)
    } else if out_s is Err {
        Err(out_s->Err_0)
    } else if outcome_named(out_s->Ok_0) is None {
        Err("unknown outcome '"@ + out_s->Ok_0 + "'"@)
    } else if cash is Err {
        Err(cash->Err_0)
    } else if bank is Err {
        Err(bank->Err_0)
    } else if debt is Err {
        Err(debt->Err_0)
    } else if guns is Err {
        Err(guns->Err_0)
    } else if health is Err {
        Err(health->Err_0)
    } else if cap is Err {
        Err(cap->Err_0)
    } else if rng is Err {
        Err(rng->Err_0)
    } else if units is Err {
        Err(units->Err_0)
    } else if total(units->Ok_0) > cap->Ok_0 as u32 {
        Err(over_capacity_msg(total(units->Ok_0) as nat, cap->Ok_0 as u32))
    } else if health->Ok_0 as u32 > MAX_HEALTH {
        Err(over_health_msg(health->Ok_0 as u32))
    } else if warehouse is Err {
        Err(warehouse->Err_0)
    } else if prices is Err {
        Err(prices->Err_0)
    } else if combat && enemies is Err {
        Err(enemies->Err_0)
    } else if combat && sunk is Err {
        Err(sunk->Err_0)
    } else {
        Ok(
            Decoded {
                mode: mode_named(mode_s->Ok_0)->Some_0,
                location: port_named(loc_s->Ok_0)->Some_0,
                outcome: outcome_named(out_s->Ok_0)->Some_0,
                cash: cash->Ok_0 as u32,
                bank: bank->Ok_0,
                debt: debt->Ok_0,
                guns: guns->Ok_0 as u32,
                health: health->Ok_0 as u32,
                capacity: cap->Ok_0 as u32,
                units: units->Ok_0,
                warehouse: warehouse->Ok_0,
                prices: prices->Ok_0,
                rng_state: rng->Ok_0,
                combat: if combat { Some((enemies->Ok_0, sunk->Ok_0 as u32)) } else { None },
                last_event: if event is Ok { event->Ok_0 } else { Seq::empty() },
            },
        )
    }
}

/// `s` is the save that `d` describes.
pub open spec fn decoded_as(s: Save, d: Decoded) -> bool {
    &&& s.game.mode == d.mode
    &&& s.game.location == d.location
    &&& s.game.outcome == d.outcome
    &&& s.game.cash == d.cash
    &&& s.game.bank == d.bank
    &&& s.game.debt == d.debt
    &&& s.game.guns == d.guns
    &&& s.game.health == d.health
    &&& s.game.hold.cap() == d.capacity
    &&& s.game.hold.cargo() == d.units
    &&& s.game.warehouse@ == d.warehouse
    &&& s.game.market@ == d.prices
    &&& s.rng_state == d.rng_state
    &&& match d.combat {
        None => s.pending == Pending::Command,
        Some((e, k)) => s.pending matches Pending::Combat { enemies, sunk } && enemies@ == e && sunk == k,
    }
    &&& s.last_event@ == d.last_event
}

/// An executable result agrees with a specified one, errors compared by their text.
pub open spec fn agrees<T>(r: Result<T, Vec<char>>, s: Result<T, Seq<char>>) -> bool {
    match s {
        Ok(v) => r == Ok::<T, Vec<char>>(v),
        Err(m) => r matches Err(e) && e@ == m,
    }
}

/// `missing_msg`, built.
fn missing_text(k: &Vec<char>) -> (m: Vec<char>)
    ensures
        m@ == missing_msg(k@),
{
    let mut m = to_chars("missing field '");
    let ghost a = m@;
    m.extend_from_slice(k.as_slice());
    push_str(&mut m, "'");
    m
}

/// `field_msg`, built.
fn field_text(k: &Vec<char>, tail: &str) -> (m: Vec<char>)
    ensures
        m@ == field_msg(k@, tail@),
{
    let mut m = to_chars("field '");
    m.extend_from_slice(k.as_slice());
    push_str(&mut m, tail);
    assert(m@ == field_msg(k@, tail@));
    m
}

/// `field_start`, computed.
fn field_start_at(t: &Vec<char>, k: &Vec<char>) -> (r: Option<usize>)
    ensures
        match field_start(t@, k@) {
            Some(a) => r == Some(a as usize) && a <= t@.len(),
            None => r is None,
        },
        r matches Some(x) ==> x <= t@.len() && field_start(t@, k@) == Some(x as int),
{
    let n = t.len();
    let mut p: Vec<char> = vec!['"'];
    p.extend_from_slice(k.as_slice());
    p.push('"');
    p.push(':');
    assert(p@ == key_pattern(k@));
    match find_seq(t, &p, 0) {
        Some(i) => {
            proof {
                lemma_find_from_found(t@, p@, 0);
            }
            Some(i + k.len() + 3)
        },
        None => None,
    }
}

/// `number_field`, computed.
fn number_field_of(t: &Vec<char>, k: &Vec<char>) -> (r: Result<u64, Vec<char>>)
    ensures
        agrees(r, number_field(t@, k@)),
{
    match field_start_at(t, k) {
        None => Err(missing_text(k)),
        Some(a) => {
            let b = skip_whitespace(t, a);
            let e = end_of_digits(t, b);
            let tok = slice_chars(t, b, e);
            match parse_u64(&tok) {
                Some(v) => Ok(v),
                None => Err(field_text(k, "' is not a number")),
            }
        },
    }
}

/// `scan_string`, computed from index `from`.
fn scan_string_at(t: &Vec<char>, from: usize) -> (r: (u8, Vec<char>))
    requires
        from <= t@.len(),
    ensures
        match scan_string(t@, from as int, Seq::empty()) {
            Scanned::Text(v) => r.0 == 0 && r.1@ == v,
            Scanned::Unterminated => r.0 == 1,
            Scanned::Dangling => r.0 == 2,
        },
{
    let mut acc: Vec<char> = Vec::new();
    let mut i = from;
    while i < t.len()
        invariant
            from <= i,
            scan_string(t@, i as int, acc@) == scan_string(t@, from as int, Seq::empty()),
        decreases t@.len() - i,
    {
        let c = t[i];
        if c == '"' {
            return (0, acc);
        } else if c == '\\' {
            if i + 1 >= t.len() {
                return (2, acc);
            }
            let d = t[i + 1];
            acc.push(if d == 'n' { '\n' } else if d == 't' { '\t' } else { d });
            i = i + 2;
        } else {
            acc.push(c);
            i = i + 1;
        }
    }
    (1, acc)
}

/// `string_field`, computed.
fn string_field_of(t: &Vec<char>, k: &Vec<char>) -> (r: Result<Vec<char>, Vec<char>>)
    ensures
        match string_field(t@, k@) {
            Ok(v) => r matches Ok(x) && x@ == v,
            Err(m) => r matches Err(e) && e@ == m,
        },
{
    let fs = field_start_at(t, k);
    if fs.is_none() {
        return Err(missing_text(k));
    }
    let a = fs.unwrap();
    let q = find_ch(t, '"', a);
    if q.is_none() {
        return Err(field_text(k, "' is not a string"));
    }
    let o = q.unwrap();
    let n = t.len();
    assert(o < n);
    let (code, v) = scan_string_at(t, o + 1);
    if code == 0 {
        Ok(v)
    } else if code == 1 {
        Err(field_text(k, "' string not terminated"))
    } else {
        Err(field_text(k, "' ends in a dangling escape"))
    }
}

/// `nested_field`, computed.
fn nested_field_of(t: &Vec<char>, outer: &Vec<char>, inner: &Vec<char>) -> (r: Result<u64, Vec<char>>)
    ensures
        agrees(r, nested_field(t@, outer@, inner@)),
{
    match field_start_at(t, outer) {
        None => Err(missing_text(outer)),
        Some(a) => {
            let rest = slice_chars(t, a, t.len());
            assert(rest@ == t@.skip(a as int));
            match find_ch(&rest, '}', 0) {
                None => Err(field_text(outer, "' object not terminated")),
                Some(e) => {
                    proof {
                        lemma_find_from_found(rest@, seq!['}'], 0);
                    }
                    let obj = slice_chars(&rest, 0, e);
                    assert(obj@ == rest@.take(e as int));
                    match number_field_of(&obj, inner) {
                        Ok(v) => Ok(v),
                        Err(m) => {
                            let mut msg = outer.clone();
                            assert(msg@ == outer@);
                            msg.push('.');
                            msg.extend_from_slice(m.as_slice());
                            assert(msg@ == outer@ + "."@ + m@) by {
                                reveal_strlit(".");
                            }
                            Err(msg)
                        },
                    }
                },
            }
        },
    }
}

/// `list_entry`, computed.
fn list_entry_of(piece: &Vec<char>) -> (r: Vec<u32>)
    ensures
        r@ == list_entry(piece@),
{
    let t = trim_chars(piece);
    match parse_u32(&t) {
        Some(v) => {
            let r = vec![v];
            assert(r@ == seq![v]);
            r
        },
        None => Vec::new(),
    }
}

/// `list_from(s, 0, [])`, computed.
fn parse_list(s: &Vec<char>) -> (r: Vec<u32>)
    ensures
        r@ == list_from(s@, 0, Seq::empty()),
{
    let mut out: Vec<u32> = Vec::new();
    let mut cur: Vec<char> = Vec::new();
    let mut i: usize = 0;
    while i < s.len()
        invariant
            i <= s@.len(),
            out@ + list_from(s@, i as int, cur@) == list_from(s@, 0, Seq::empty()),
        decreases s@.len() - i,
    {
        let c = s[i];
        if c == ',' {
            let e = list_entry_of(&cur);
            let ghost o = out@;
            out.extend_from_slice(e.as_slice());
            assert(o + (e@ + list_from(s@, i + 1, Seq::empty())) == out@ + list_from(
                s@,
                i + 1,
                Seq::empty(),
            ));
            cur = Vec::new();
        } else {
            cur.push(c);
        }
        i = i + 1;
    }
    let e = list_entry_of(&cur);
    out.extend_from_slice(e.as_slice());
    out
}

/// `enemy_list`, computed.
fn enemy_list_of(t: &Vec<char>) -> (r: Result<Vec<u32>, Vec<char>>)
    ensures
        match enemy_list(t@) {
            Ok(v) => r matches Ok(x) && x@ == v,
            Err(m) => r matches Err(e) && e@ == m,
        },
{
    let key = to_chars("\"enemy_hps\":");
    proof {
        reveal_strlit("\"enemy_hps\":");
    }
    let n = t.len();
    let h = find_seq(t, &key, 0);
    if h.is_none() {
        return Err(to_chars("missing enemy_hps"));
    }
    let i = h.unwrap();
    let rest = slice_chars(t, i + 12, n);
    assert(rest@ == t@.skip(i + 12));
    let o = find_ch(&rest, '[', 0);
    let c = find_ch(&rest, ']', 0);
    if o.is_none() {
        return Err(to_chars("enemy_hps not an array"));
    }
    if c.is_none() {
        return Err(to_chars("enemy_hps not terminated"));
    }
    let o = o.unwrap();
    let c = c.unwrap();
    if c < o {
        return Err(to_chars("enemy_hps not terminated"));
    }
    let block = slice_chars(&rest, o + 1, c);
    Ok(parse_list(&block))
}

/// The port whose name is exactly `s`.
fn port_of(s: &Vec<char>) -> (p: Option<Port>)
    ensures
        p == port_named(s@),
{
    if same_text(s, Port::HongKong.name()) {
        Some(Port::HongKong)
    } else if same_text(s, Port::Shanghai.name()) {
        Some(Port::Shanghai)
    } else if same_text(s, Port::Nagasaki.name()) {
        Some(Port::Nagasaki)
    } else if same_text(s, Port::Saigon.name()) {
        Some(Port::Saigon)
    } else if same_text(s, Port::Manila.name()) {
        Some(Port::Manila)
    } else if same_text(s, Port::Singapore.name()) {
        Some(Port::Singapore)
    } else if same_text(s, Port::Batavia.name()) {
        Some(Port::Batavia)
    } else {
        None
    }
}

/// The economy a save's `mode` names.
fn mode_of(s: &Vec<char>) -> (m: Option<EconomyMode>)
    ensures
        m == mode_named(s@),
{
    let w = trim_chars(s);
    if same_text(&w, "classic") {
        Some(EconomyMode::Classic)
    } else if same_text(&w, "trader") {
        Some(EconomyMode::Trader)
    } else {
        EconomyMode::parse(chars_to_string(s).as_str())
    }
}

/// The outcome a save's word names.
fn outcome_of(s: &Vec<char>) -> (o: Option<Option<Outcome>>)
    ensures
        o == outcome_named(s@),
{
    if same_text(s, "playing") {
        Some(None)
    } else if same_text(s, "won") {
        Some(Some(Outcome::Won))
    } else if same_text(s, "ship_destroyed") {
        Some(Some(Outcome::ShipDestroyed))
    } else {
        None
    }
}

/// `slot_fields`, computed.
fn slot_fields_of(t: &Vec<char>, outer: &str) -> (r: Result<[u32; 4], Vec<char>>)
    ensures
        match slot_fields(t@, outer@) {
            Ok(v) => r matches Ok(x) && x@ == v,
            Err(m) => r matches Err(e) && e@ == m,
        },
{
    let o = to_chars(outer);
    let a = nested_field_of(t, &o, &to_chars("opium"));
    let b = nested_field_of(t, &o, &to_chars("silk"));
    let c = nested_field_of(t, &o, &to_chars("arms"));
    let d = nested_field_of(t, &o, &to_chars("general"));
    match (a, b, c, d) {
        (Err(m), _, _, _) => Err(m),
        (Ok(_), Err(m), _, _) => Err(m),
        (Ok(_), Ok(_), Err(m), _) => Err(m),
        (Ok(_), Ok(_), Ok(_), Err(m)) => Err(m),
        (Ok(w), Ok(x), Ok(y), Ok(z)) => {
            let r = [w as u32, x as u32, y as u32, z as u32];
            assert(r@ == seq![w as u32, x as u32, y as u32, z as u32]);
            Ok(r)
        },
    }
}

/// `"prefix" + s + "'"`, built.
fn quoted_text(prefix: &str, s: &Vec<char>) -> (m: Vec<char>)
    ensures
        m@ == prefix@ + s@ + "'"@,
{
    let mut m = to_chars(prefix);
    m.extend_from_slice(s.as_slice());
    push_str(&mut m, "'");
    m
}

/// Parse a save from its JSON text. Fields are read by key, in a fixed order; the
/// first problem met is reported. A save whose cargo exceeds its hold capacity, or
/// whose health exceeds `MAX_HEALTH`, is refused as corrupt.
pub fn from_json(json: &str) -> (r: Result<Save, String>)
    ensures
        match decode(json@) {
            Ok(d) => r matches Ok(s) && decoded_as(s, d),
            Err(m) => r matches Err(e) && e@ == m,
        },
        r matches Ok(s) ==> s.game.wf() && s.game.health <= MAX_HEALTH,
{
    let t = to_chars(json);
    let version = number_field_of(&t, &to_chars("version"));
    let mode_s = string_field_of(&t, &to_chars("mode"));
    let loc_s = string_field_of(&t, &to_chars("location"));
    let out_s = string_field_of(&t, &to_chars("outcome"));
    let cash = number_field_of(&t, &to_chars("cash"));
    let bank = number_field_of(&t, &to_chars("bank"));
    let debt = number_field_of(&t, &to_chars("debt"));
    let guns = number_field_of(&t, &to_chars("guns"));
    let health = number_field_of(&t, &to_chars("health"));
    let cap = number_field_of(&t, &to_chars("hold_capacity"));
    let rng = number_field_of(&t, &to_chars("rng_state"));
    let units = slot_fields_of(&t, "hold");
    let warehouse = slot_fields_of(&t, "warehouse");
    let prices = slot_fields_of(&t, "prices");
    let combat_key = to_chars("\"combat\":");
    let combat = find_seq(&t, &combat_key, 0).is_some();
    let enemies = enemy_list_of(&t);
    let sunk = nested_field_of(&t, &to_chars("combat"), &to_chars("sunk"));
    let event = string_field_of(&t, &to_chars("last_event"));
    let version = match version {
        Err(_) => {
            let mut m = to_chars("save predates version ");
            push_decimal(&mut m, SAVE_VERSION as u64);
            push_str(&mut m, " (no version field); please start a new game");
            return Err(chars_to_string(&m));
        },
        Ok(v) => v as u32,
    };
    if version != SAVE_VERSION {
        let mut m = to_chars("save is version ");
        push_decimal(&mut m, version as u64);
        push_str(&mut m, ", but this build uses version ");
        push_decimal(&mut m, SAVE_VERSION as u64);
        push_str(&mut m, "; please start a new game");
        return Err(chars_to_string(&m));
    }
    let mode_s = match mode_s {
        Err(m) => return Err(chars_to_string(&m)),
        Ok(v) => v,
    };
    let mode = match mode_of(&mode_s) {
        None => return Err(chars_to_string(&quoted_text("unknown mode '", &mode_s))),
        Some(m) => m,
    };
    let loc_s = match loc_s {
        Err(m) => return Err(chars_to_string(&m)),
        Ok(v) => v,
    };
    let location = match port_of(&loc_s) {
        None => return Err(chars_to_string(&quoted_text("unknown port '", &loc_s))),
        Some(p) => p,
    };
    let out_s = match out_s {
        Err(m) => return Err(chars_to_string(&m)),
        Ok(v) => v,
    };
    let outcome = match outcome_of(&out_s) {
        None => return Err(chars_to_string(&quoted_text("unknown outcome '", &out_s))),
        Some(o) => o,
    };
    let cash = match cash {
        Err(m) => return Err(chars_to_string(&m)),
        Ok(v) => v as u32,
    };
    let bank = match bank {
        Err(m) => return Err(chars_to_string(&m)),
        Ok(v) => v,
    };
    let debt = match debt {
        Err(m) => return Err(chars_to_string(&m)),
        Ok(v) => v,
    };
    let guns = match guns {
        Err(m) => return Err(chars_to_string(&m)),
        Ok(v) => v as u32,
    };
    let health = match health {
        Err(m) => return Err(chars_to_string(&m)),
        Ok(v) => v as u32,
    };
    let cap = match cap {
        Err(m) => return Err(chars_to_string(&m)),
        Ok(v) => v as u32,
    };
    let rng_state = match rng {
        Err(m) => return Err(chars_to_string(&m)),
        Ok(v) => v,
    };
    let units = match units {
        Err(m) => return Err(chars_to_string(&m)),
        Ok(v) => v,
    };
    let used: u64 = units[0] as u64 + units[1] as u64 + units[2] as u64 + units[3] as u64;
    if used > cap as u64 {
        let mut m = to_chars("corrupt save: hold carries ");
        push_decimal(&mut m, used);
        push_str(&mut m, " units but capacity is ");
        push_decimal(&mut m, cap as u64);
        return Err(chars_to_string(&m));
    }
    if health > MAX_HEALTH {
        let mut m = to_chars("corrupt save: health ");
        push_decimal(&mut m, health as u64);
        push_str(&mut m, " exceeds the maximum ");
        push_decimal(&mut m, MAX_HEALTH as u64);
        return Err(chars_to_string(&m));
    }
    let warehouse = match warehouse {
        Err(m) => return Err(chars_to_string(&m)),
        Ok(v) => v,
    };
    let prices = match prices {
        Err(m) => return Err(chars_to_string(&m)),
        Ok(v) => v,
    };
    let pending = if combat {
        let enemies = match enemies {
            Err(m) => return Err(chars_to_string(&m)),
            Ok(v) => v,
        };
        let sunk = match sunk {
            Err(m) => return Err(chars_to_string(&m)),
            Ok(v) => v as u32,
        };
        Pending::Combat { enemies, sunk }
    } else {
        Pending::Command
    };
    let last_event = match event {
        Ok(v) => chars_to_string(&v),
        Err(_) => String::new(),
    };
    let game = Game {
        cash,
        bank,
        debt,
        location,
        hold: Hold::from_parts(cap, units),
        warehouse,
        guns,
        health,
        market: Market::with_prices(prices),
        outcome,
        mode,
    };
    Ok(Save { game, rng_state, pending, last_event })
}

} // verus!
