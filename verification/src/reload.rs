//! Why a save, written out and read back, is the same save: each key is found where
//! it was written, and each value reads back as the value written.

use vstd::prelude::*;
use crate::scan::{occurs_at, find_from, find_char, skip_ws, digits_end, lemma_find_from_found};
use crate::state::{
    Field, Piece, joined, key_pattern, lemma_joined_concat, lemma_joined_push, number_text,
    string_text, escape, esc_char, scan_string, Scanned, unescaped, number_field, string_field,
    field_start, number_token, nested_field, enemy_list, slot_fields, decode, decoded_as, json_text,
    mode_named, port_named, outcome_named,
};
use crate::state::{
    Save, Pending, pending_pieces, slots_pieces, head_pieces, middle_pieces, tail_pieces,
    save_pieces, eol, number_list, outcome_word, bool_word, list_from, list_entry,
};
use crate::travel::Port;
use crate::economy::EconomyMode;
use crate::game::{Outcome, MAX_HEALTH};
use crate::market::total;
use crate::text::{
    decimal, digit_char, digits_value, digit_value, all_digits, is_digit, is_ws, parse_u64_spec,
    parse_u32_spec, trim, trim_start, trim_end,
};

verus! {

/// A lowercase ASCII letter.
pub open spec fn is_lower(c: char) -> bool {
    'a' <= c && c <= 'z'
}

/// A key name: lowercase letters and underscores, ending in a letter.
pub open spec fn key_ok(k: Seq<char>) -> bool {
    &&& k.len() >= 1
    &&& forall|i: int| 0 <= i < k.len() ==> is_lower(#[trigger] k[i]) || k[i] == '_'
    &&& is_lower(k.last())
}

/// At `e` stands the closing quote of something that reads like a key: a lowercase
/// letter, then `"`, then `:`.
pub open spec fn key_close(t: Seq<char>, e: int) -> bool {
    &&& 1 <= e
    &&& e + 1 < t.len()
    &&& is_lower(t[e - 1])
    &&& t[e] == '"'
    &&& t[e + 1] == ':'
}

/// Text with no key-like close strictly inside it.
pub open spec fn text_ok(s: Seq<char>) -> bool {
    &&& s.len() >= 1
    &&& forall|e: int| 1 <= e && e + 1 < s.len() ==> !(#[trigger] key_close(s, e))
}

/// Texts free of key-like closes, and no two texts side by side.
pub open spec fn pieces_ok(ps: Seq<Piece>) -> bool {
    &&& forall|i: int|
        0 <= i < ps.len() ==> match #[trigger] ps[i] {
            Piece::Key(_) => true,
            Piece::Text(s) => text_ok(s),
        }
    &&& forall|i: int| 0 <= i && i + 1 < ps.len() ==> !(#[trigger] ps[i] is Text && ps[i + 1] is Text)
}

/// Where piece `i` begins.
pub open spec fn offset(ps: Seq<Piece>, i: int) -> int {
    joined(ps.take(i)).len() as int
}

/// The text of the first `i` pieces, then of the rest.
pub proof fn lemma_split_at(ps: Seq<Piece>, i: int)
    requires
        0 <= i <= ps.len(),
    ensures
        joined(ps) == joined(ps.take(i)) + joined(ps.skip(i)),
{
    lemma_joined_concat(ps.take(i), ps.skip(i));
    assert(ps.take(i) + ps.skip(i) == ps);
}

/// Piece `i` stands at its offset.
pub proof fn lemma_piece_at(ps: Seq<Piece>, i: int)
    requires
        0 <= i < ps.len(),
    ensures
        offset(ps, i) + ps[i].chars().len() <= joined(ps).len(),
        joined(ps).subrange(offset(ps, i), offset(ps, i) + ps[i].chars().len()) == ps[i].chars(),
        offset(ps, i + 1) == offset(ps, i) + ps[i].chars().len(),
{
    lemma_split_at(ps, i);
    let rest = ps.skip(i);
    assert(rest == seq![ps[i]] + rest.skip(1));
    lemma_joined_concat(seq![ps[i]], rest.skip(1));
    assert(seq![ps[i]].drop_last() == Seq::<Piece>::empty());
    assert(joined(Seq::<Piece>::empty()) == Seq::<char>::empty());
    assert(joined(seq![ps[i]]) == Seq::<char>::empty() + ps[i].chars());
    assert(joined(seq![ps[i]]) == ps[i].chars());
    assert(ps.take(i + 1) == ps.take(i).push(ps[i]));
    lemma_joined_push(ps.take(i), ps[i]);
    let a = joined(ps.take(i));
    let b = ps[i].chars();
    let c = joined(rest.skip(1));
    assert(joined(ps) == a + b + c);
    assert((a + b + c).subrange(a.len() as int, (a.len() + b.len()) as int) == b);
}

/// Offsets do not decrease.
pub proof fn lemma_offset_mono(ps: Seq<Piece>, i: int, j: int)
    requires
        0 <= i <= j <= ps.len(),
    ensures
        offset(ps, i) <= offset(ps, j),
    decreases j - i,
{
    if i < j {
        lemma_offset_mono(ps, i, j - 1);
        lemma_piece_at(ps, j - 1);
    }
}

/// The characters of a key piece: a quote, the name, a quote, a colon.
pub proof fn lemma_key_chars(k: Seq<char>)
    ensures
        key_pattern(k).len() == k.len() + 3,
        key_pattern(k)[0] == '"',
        forall|j: int| 0 <= j < k.len() ==> #[trigger] key_pattern(k)[j + 1] == k[j],
        key_pattern(k)[k.len() as int + 1] == '"',
        key_pattern(k)[k.len() as int + 2] == ':',
{
}

/// Pieces of a well-formed run, minus the last, are well formed.
pub proof fn lemma_pieces_ok_init(ps: Seq<Piece>)
    requires
        pieces_ok(ps),
        ps.len() >= 1,
    ensures
        pieces_ok(ps.drop_last()),
{
    let init = ps.drop_last();
    assert forall|i: int| 0 <= i < init.len() implies match #[trigger] init[i] {
        Piece::Key(_) => true,
        Piece::Text(s) => text_ok(s),
    } by {
        assert(init[i] == ps[i]);
    }
    assert forall|i: int| 0 <= i && i + 1 < init.len() implies !(#[trigger] init[i] is Text && init[i + 1] is Text) by {
        assert(init[i] == ps[i] && init[i + 1] == ps[i + 1]);
    }
}

/// Every key-like close in well-formed pieces closes a key piece.
pub proof fn lemma_close_is_key(ps: Seq<Piece>, e: int) -> (i: int)
    requires
        pieces_ok(ps),
        key_close(joined(ps), e),
    ensures
        0 <= i < ps.len(),
        ps[i] is Key,
        e == offset(ps, i) + ps[i]->Key_0.name().len() + 1,
    decreases ps.len(),
{
    let n = ps.len() as int;
    let init = ps.drop_last();
    let last = ps.last();
    let a = joined(init);
    let c = last.chars();
    let t = joined(ps);
    assert(t == a + c);
    assert(init == ps.take(n - 1));
    lemma_pieces_ok_init(ps);
    assert(match ps[n - 1] {
        Piece::Key(_) => true,
        Piece::Text(s) => text_ok(s),
    });
    if let Piece::Key(f) = last {
        lemma_field_name(f);
        lemma_key_chars(f.name());
    }
    if n >= 2 {
        assert(!(ps[n - 2] is Text && ps[n - 1] is Text));
        if let Piece::Key(f0) = init.last() {
            lemma_key_chars(f0.name());
            assert(init.drop_last() + seq![init.last()] == init);
            assert(a == joined(init.drop_last()) + key_pattern(f0.name()));
            assert(a.last() == ':');
        }
    }
    if e + 1 < a.len() {
        assert(key_close(a, e));
        let i = lemma_close_is_key(init, e);
        assert(init.take(i) == ps.take(i));
        i
    } else if e >= a.len() + 1 {
        let le = e - a.len();
        assert(c[le - 1] == t[e - 1] && c[le] == t[e] && c[le + 1] == t[e + 1]);
        match last {
            Piece::Text(s) => {
                assert(key_close(s, le));
                assert(false);
                0
            },
            Piece::Key(f) => {
                if le <= f.name().len() {
                    assert(c[le] == f.name()[le - 1]);
                    assert(false);
                }
                n - 1
            },
        }
    } else if e == a.len() {
        assert(t[e] == c[0]);
        match last {
            Piece::Key(f) => {
                assert(t[e + 1] == c[1]);
                assert(c[1] == f.name()[0]);
                assert(false);
                0
            },
            Piece::Text(s) => {
                assert(a.len() >= 1);
                assert(init.len() >= 1);
                assert(t[e - 1] == a.last());
                assert(false);
                0
            },
        }
    } else {
        assert(e == a.len() - 1);
        assert(t[e + 1] == c[0]);
        match last {
            Piece::Key(k) => {
                assert(false);
                0
            },
            Piece::Text(s) => {
                assert(t[e] == a.last());
                assert(false);
                0
            },
        }
    }
}

/// Wherever a key's pattern occurs in the text of well-formed pieces, that key's
/// piece stands.
pub proof fn lemma_occurrence_is_key(ps: Seq<Piece>, f: Field, j: int) -> (i: int)
    requires
        pieces_ok(ps),
        occurs_at(joined(ps), key_pattern(f.name()), j),
    ensures
        0 <= i < ps.len(),
        ps[i] == Piece::Key(f),
        offset(ps, i) == j,
{
    let k = f.name();
    lemma_field_name(f);
    let t = joined(ps);
    let p = key_pattern(k);
    lemma_key_chars(k);
    let e = j + k.len() + 1;
    assert(t.subrange(j, j + p.len()) == p);
    assert(t[e - 1] == p[k.len() as int]);
    assert(p[k.len() as int] == k[k.len() - 1]);
    assert(t[e] == p[k.len() as int + 1]);
    assert(t[e + 1] == p[k.len() as int + 2]);
    assert(key_close(t, e));
    let i = lemma_close_is_key(ps, e);
    let f2 = ps[i]->Key_0;
    let k2 = f2.name();
    lemma_field_name(f2);
    lemma_piece_at(ps, i);
    lemma_key_chars(k2);
    let o = offset(ps, i);
    let p2 = key_pattern(k2);
    assert(t.subrange(o, o + p2.len()) == p2);
    if k.len() < k2.len() {
        assert(t[j] == p[0]);
        assert(t[j] == p2[j - o]);
        assert(p2[j - o] == k2[j - o - 1]);
        assert(false);
    } else if k.len() > k2.len() {
        assert(t[o] == p2[0]);
        assert(t[o] == p[o - j]);
        assert(p[o - j] == k[o - j - 1]);
        assert(false);
    } else {
        assert(o == j);
        assert(p == p2);
        assert(k == p.subrange(1, k.len() as int + 1));
        assert(k2 == p2.subrange(1, k2.len() as int + 1));
        lemma_names_differ(f, f2);
    }
    i
}

/// The first pattern of a key in the text of well-formed pieces is where that key's
/// first piece stands.
pub proof fn lemma_key_found(ps: Seq<Piece>, i: int, f: Field)
    requires
        pieces_ok(ps),
        0 <= i < ps.len(),
        ps[i] == Piece::Key(f),
        forall|m: int| 0 <= m < i ==> ps[m] != Piece::Key(f),
    ensures
        find_from(joined(ps), key_pattern(f.name()), 0) == Some(offset(ps, i)),
{
    let t = joined(ps);
    let p = key_pattern(f.name());
    lemma_piece_at(ps, i);
    let x0 = offset(ps, i);
    assert(occurs_at(t, p, x0));
    lemma_find_from_found(t, p, 0);
    match find_from(t, p, 0) {
        None => {
            assert(false);
        },
        Some(x) => {
            let i2 = lemma_occurrence_is_key(ps, f, x);
            if x < x0 {
                if i2 >= i {
                    lemma_offset_mono(ps, i, i2);
                }
                assert(false);
            }
        },
    }
}

/// A key with no piece of its own never occurs in the text of well-formed pieces.
pub proof fn lemma_key_absent(ps: Seq<Piece>, f: Field)
    requires
        pieces_ok(ps),
        forall|m: int| 0 <= m < ps.len() ==> ps[m] != Piece::Key(f),
    ensures
        find_from(joined(ps), key_pattern(f.name()), 0) is None,
{
    lemma_find_from_found(joined(ps), key_pattern(f.name()), 0);
    if let Some(x) = find_from(joined(ps), key_pattern(f.name()), 0) {
        let i = lemma_occurrence_is_key(ps, f, x);
        assert(false);
    }
}

/// A key's length and first two characters.
pub open spec fn sig(k: Seq<char>) -> (nat, char, char) {
    (k.len(), k[0], k[1])
}

/// Every key is a well-formed name, told apart from the others by its length and
/// first two characters.
pub proof fn lemma_field_name(f: Field)
    ensures
        key_ok(f.name()),
        f.name().len() >= 2,
{
    reveal_strlit("version");
    reveal_strlit("pending");
    reveal_strlit("combat");
    reveal_strlit("enemy_hps");
    reveal_strlit("sunk");
    reveal_strlit("last_event");
    reveal_strlit("outcome");
    reveal_strlit("mode");
    reveal_strlit("location");
    reveal_strlit("at_home");
    reveal_strlit("cash");
    reveal_strlit("bank");
    reveal_strlit("debt");
    reveal_strlit("net_worth");
    reveal_strlit("guns");
    reveal_strlit("health");
    reveal_strlit("hold_capacity");
    reveal_strlit("hold_free");
    reveal_strlit("hold");
    reveal_strlit("warehouse");
    reveal_strlit("prices");
    reveal_strlit("rng_state");
    reveal_strlit("opium");
    reveal_strlit("silk");
    reveal_strlit("arms");
    reveal_strlit("general");
    let k = f.name();
    assert forall|i: int| 0 <= i < k.len() implies is_lower(#[trigger] k[i]) || k[i] == '_' by {
        match f {
            _ => {},
        }
    }
}

/// Different keys have different names.
pub proof fn lemma_names_differ(a: Field, b: Field)
    requires
        a.name() == b.name(),
    ensures
        a == b,
{
    reveal_strlit("version");
    reveal_strlit("pending");
    reveal_strlit("combat");
    reveal_strlit("enemy_hps");
    reveal_strlit("sunk");
    reveal_strlit("last_event");
    reveal_strlit("outcome");
    reveal_strlit("mode");
    reveal_strlit("location");
    reveal_strlit("at_home");
    reveal_strlit("cash");
    reveal_strlit("bank");
    reveal_strlit("debt");
    reveal_strlit("net_worth");
    reveal_strlit("guns");
    reveal_strlit("health");
    reveal_strlit("hold_capacity");
    reveal_strlit("hold_free");
    reveal_strlit("hold");
    reveal_strlit("warehouse");
    reveal_strlit("prices");
    reveal_strlit("rng_state");
    reveal_strlit("opium");
    reveal_strlit("silk");
    reveal_strlit("arms");
    reveal_strlit("general");
    assert(sig(a.name()) == sig(b.name()));
}

/// The decimal digits of `n`: at least one, all digits, and reading back as `n`.
pub proof fn lemma_decimal(n: nat)
    ensures
        decimal(n).len() >= 1,
        all_digits(decimal(n)),
        digits_value(decimal(n)) == n,
    decreases n,
{
    assert(digits_value(Seq::<char>::empty()) == 0);
    if n < 10 {
        let c = digit_char(n);
        assert(c as int == n + 48);
        assert(decimal(n) == seq![c]);
        assert(seq![c].drop_last() == Seq::<char>::empty());
        assert(digit_value(c) == n);
        assert(digits_value(seq![c]) == digits_value(Seq::<char>::empty()) * 10 + digit_value(c));
    } else {
        lemma_decimal(n / 10);
        let d = decimal(n / 10);
        let c = digit_char(n % 10);
        assert(c as int == n % 10 + 48);
        assert(decimal(n) == d.push(c));
        assert(d.push(c).drop_last() == d);
        assert(digit_value(c) == n % 10);
        assert(digits_value(d.push(c)) == digits_value(d) * 10 + digit_value(c));
        assert((n / 10) * 10 + n % 10 == n);
        assert forall|i: int| 0 <= i < d.push(c).len() implies is_digit(#[trigger] d.push(c)[i]) by {
            if i < d.len() {
                assert(d.push(c)[i] == d[i]);
            }
        }
    }
}

/// The decimal digits of a 64-bit value parse back as that value.
pub proof fn lemma_decimal_parses(n: nat)
    requires
        n <= u64::MAX,
    ensures
        parse_u64_spec(decimal(n)) == Some(n as u64),
{
    lemma_decimal(n);
    assert(is_digit(decimal(n)[0]));
}

/// `digits_end` stops after a run of `m` digits.
pub proof fn lemma_digits_end(t: Seq<char>, b: int, m: int)
    requires
        0 <= b,
        0 <= m,
        b + m <= t.len(),
        forall|j: int| 0 <= j < m ==> is_digit(#[trigger] t[b + j]),
        b + m == t.len() || !is_digit(t[b + m]),
    ensures
        digits_end(t, b) == b + m,
    decreases m,
{
    if m > 0 {
        assert(is_digit(t[b + 0]));
        assert forall|j: int| 0 <= j < m - 1 implies is_digit(#[trigger] t[(b + 1) + j]) by {
            assert(is_digit(t[b + (j + 1)]));
        }
        lemma_digits_end(t, b + 1, m - 1);
    }
}

/// The text of the pieces from `i` on is the text from piece `i`'s offset on.
pub proof fn lemma_skip_joined(ps: Seq<Piece>, i: int)
    requires
        0 <= i <= ps.len(),
    ensures
        joined(ps).skip(offset(ps, i)) == joined(ps.skip(i)),
        joined(ps).len() == offset(ps, i) + joined(ps.skip(i)).len(),
{
    lemma_split_at(ps, i);
    let a = joined(ps.take(i));
    let b = joined(ps.skip(i));
    assert((a + b).skip(a.len() as int) == b);
}

/// The value of a key is found just past the key, when the key's first piece is `i`.
pub proof fn lemma_field_start(ps: Seq<Piece>, i: int, f: Field)
    requires
        pieces_ok(ps),
        0 <= i < ps.len(),
        ps[i] == Piece::Key(f),
        forall|m: int| 0 <= m < i ==> ps[m] != Piece::Key(f),
    ensures
        field_start(joined(ps), f.name()) == Some(offset(ps, i + 1)),
{
    lemma_key_found(ps, i, f);
    lemma_piece_at(ps, i);
}

/// Number text at `a` reads back as its number.
pub proof fn lemma_number_token(t: Seq<char>, a: int, n: nat, tail: Seq<char>)
    requires
        0 <= a,
        a + number_text(n, tail).len() <= t.len(),
        t.subrange(a, a + number_text(n, tail).len()) == number_text(n, tail),
        n <= u64::MAX,
        tail.len() >= 1,
        !is_digit(tail[0]),
    ensures
        number_token(t, a) == decimal(n),
        parse_u64_spec(number_token(t, a)) == Some(n as u64),
{
    let d = decimal(n);
    lemma_decimal(n);
    let x = number_text(n, tail);
    assert(x == " "@ + d + tail);
    reveal_strlit(" ");
    assert(t[a] == x[0]);
    assert(x[0] == ' ');
    assert(t[a + 1] == x[1]);
    assert(x[1] == d[0]);
    assert(is_digit(d[0]));
    assert(!is_ws(d[0]));
    assert(skip_ws(t, a + 1) == a + 1);
    assert(skip_ws(t, a) == a + 1);
    assert forall|j: int| 0 <= j < d.len() implies is_digit(#[trigger] t[(a + 1) + j]) by {
        assert(t[(a + 1) + j] == x[1 + j]);
        assert(x[1 + j] == d[j]);
    }
    assert(t[a + 1 + d.len()] == x[1 + d.len() as int]);
    assert(x[1 + d.len() as int] == tail[0]);
    lemma_digits_end(t, a + 1, d.len() as int);
    assert forall|j: int| 0 <= j < d.len() implies #[trigger] t.subrange(a + 1, a + 1 + d.len())[j]
        == d[j] by {
        assert(t[(a + 1) + j] == x[1 + j]);
        assert(x[1 + j] == d[j]);
    }
    assert(t.subrange(a + 1, a + 1 + d.len()) =~= d);
    lemma_decimal_parses(n);
}

/// A number field reads the number written after its key.
pub proof fn lemma_number_field(ps: Seq<Piece>, i: int, f: Field, n: nat, tail: Seq<char>)
    requires
        pieces_ok(ps),
        0 <= i,
        i + 1 < ps.len(),
        ps[i] == Piece::Key(f),
        forall|m: int| 0 <= m < i ==> ps[m] != Piece::Key(f),
        ps[i + 1] == Piece::Text(number_text(n, tail)),
        n <= u64::MAX,
        tail.len() >= 1,
        !is_digit(tail[0]),
    ensures
        number_field(joined(ps), f.name()) == Ok::<u64, Seq<char>>(n as u64),
{
    lemma_field_start(ps, i, f);
    lemma_piece_at(ps, i + 1);
    lemma_number_token(joined(ps), offset(ps, i + 1), n, tail);
}

/// Escaping two runs of text one after the other.
pub proof fn lemma_escape_concat(a: Seq<char>, b: Seq<char>)
    ensures
        escape(a + b) == escape(a) + escape(b),
    decreases b.len(),
{
    if b.len() == 0 {
        assert(a + b == a);
        assert(escape(a) + escape(b) == escape(a));
    } else {
        lemma_escape_concat(a, b.drop_last());
        assert((a + b).drop_last() == a + b.drop_last());
        assert((a + b).last() == b.last());
        assert(escape(a) + escape(b.drop_last()) + esc_char(b.last()) == escape(a) + (escape(
            b.drop_last(),
        ) + esc_char(b.last())));
    }
}

/// Escaping a text is escaping its first character, then the rest.
pub proof fn lemma_escape_first(c: Seq<char>)
    requires
        c.len() >= 1,
    ensures
        escape(c) == esc_char(c[0]) + escape(c.drop_first()),
{
    lemma_escape_concat(seq![c[0]], c.drop_first());
    assert(seq![c[0]] + c.drop_first() == c);
    assert(seq![c[0]].drop_last() == Seq::<char>::empty());
    assert(escape(Seq::<char>::empty()) == Seq::<char>::empty());
    assert(escape(seq![c[0]]) == Seq::<char>::empty() + esc_char(c[0]));
    assert(escape(seq![c[0]]) == esc_char(c[0]));
}

/// Reading an escaped body up to its closing quote gives back the text.
pub proof fn lemma_scan_escaped(t: Seq<char>, j: int, acc: Seq<char>, c: Seq<char>)
    requires
        0 <= j,
        j + escape(c).len() < t.len(),
        t.subrange(j, j + escape(c).len()) == escape(c),
        t[j + escape(c).len()] == '"',
    ensures
        scan_string(t, j, acc) == Scanned::Text(acc + c),
    decreases c.len(),
{
    if c.len() == 0 {
        assert(escape(c) == Seq::<char>::empty());
        assert(acc + c == acc);
    } else {
        lemma_escape_first(c);
        let c0 = c[0];
        let r = c.drop_first();
        let e0 = esc_char(c0);
        let er = escape(r);
        assert(escape(c) == e0 + er);
        let w = e0.len() as int;
        let ec = escape(c);
        assert(t.subrange(j, j + ec.len())[0] == t[j]);
        assert(ec[0] == e0[0]);
        assert(t[j] == e0[0]);
        assert forall|x: int| 0 <= x < er.len() implies #[trigger] t.subrange(j + w, j + w + er.len())[x]
            == er[x] by {
            assert(t.subrange(j, j + ec.len())[w + x] == t[j + w + x]);
            assert(ec[w + x] == er[x]);
        }
        assert(t.subrange(j + w, j + w + er.len()) =~= er);
        assert(t[j + w + er.len()] == '"');
        assert(acc.push(c0) + r == acc + c);
        if c0 == '"' || c0 == '\\' || c0 == '\n' || c0 == '\t' {
            assert(w == 2);
            assert(t[j] == '\\');
            assert(t.subrange(j, j + ec.len())[1] == t[j + 1]);
            assert(ec[1] == e0[1]);
            assert(t[j + 1] == e0[1]);
            assert(unescaped(e0[1]) == c0);
            lemma_scan_escaped(t, j + 2, acc.push(c0), r);
        } else {
            assert(w == 1);
            assert(t[j] == c0);
            lemma_scan_escaped(t, j + 1, acc.push(c0), r);
        }
    }
}

/// A string field reads back the text whose escape was written after its key.
pub proof fn lemma_string_field(ps: Seq<Piece>, i: int, f: Field, c: Seq<char>)
    requires
        pieces_ok(ps),
        0 <= i,
        i + 1 < ps.len(),
        ps[i] == Piece::Key(f),
        forall|m: int| 0 <= m < i ==> ps[m] != Piece::Key(f),
        ps[i + 1] == Piece::Text(string_text(escape(c))),
    ensures
        string_field(joined(ps), f.name()) == Ok::<Seq<char>, Seq<char>>(c),
{
    let t = joined(ps);
    lemma_field_start(ps, i, f);
    lemma_piece_at(ps, i + 1);
    let a = offset(ps, i + 1);
    let e = escape(c);
    let x = string_text(e);
    reveal_strlit(" \"");
    reveal_strlit("\",\n  ");
    assert(x == " \""@ + e + "\",\n  "@);
    assert(t.subrange(a, a + x.len()) == x);
    assert(t[a] == x[0]);
    assert(t[a + 1] == x[1]);
    assert(t.subrange(a, a + 1) =~= seq![' ']);
    assert(!occurs_at(t, seq!['"'], a));
    assert(t.subrange(a + 1, a + 2) =~= seq!['"']);
    assert(occurs_at(t, seq!['"'], a + 1));
    assert(find_from(t, seq!['"'], a + 1) == Some(a + 1));
    assert(find_char(t, '"', a) == Some(a + 1));
    assert forall|y: int| 0 <= y < e.len() implies #[trigger] t.subrange(a + 2, a + 2 + e.len())[y]
        == e[y] by {
        assert(t[a + 2 + y] == x[2 + y]);
    }
    assert(t.subrange(a + 2, a + 2 + e.len()) =~= e);
    assert(t[a + 2 + e.len()] == x[2 + e.len() as int]);
    lemma_scan_escaped(t, a + 2, Seq::empty(), c);
    assert(Seq::<char>::empty() + c == c);
}

/// No double quote in `s`.
pub open spec fn no_quote(s: Seq<char>) -> bool {
    forall|i: int| 0 <= i < s.len() ==> #[trigger] s[i] != '"'
}

/// Nonempty text without quotes has no key-like close.
pub proof fn lemma_text_ok_plain(s: Seq<char>)
    requires
        s.len() >= 1,
        no_quote(s),
    ensures
        text_ok(s),
{
    assert forall|e: int| 1 <= e && e + 1 < s.len() implies !(#[trigger] key_close(s, e)) by {
        assert(s[e] != '"');
    }
}

/// Decimal digits hold no quote.
pub proof fn lemma_decimal_no_quote(n: nat)
    ensures
        no_quote(decimal(n)),
{
    lemma_decimal(n);
    assert forall|i: int| 0 <= i < decimal(n).len() implies #[trigger] decimal(n)[i] != '"' by {
        assert(is_digit(decimal(n)[i]));
    }
}

/// Number text holds no quote when its tail holds none.
pub proof fn lemma_number_text_no_quote(n: nat, tail: Seq<char>)
    requires
        no_quote(tail),
    ensures
        no_quote(number_text(n, tail)),
        number_text(n, tail).len() >= 1,
{
    lemma_decimal_no_quote(n);
    reveal_strlit(" ");
    let x = number_text(n, tail);
    let d = decimal(n);
    assert(x == " "@ + d + tail);
    assert forall|i: int| 0 <= i < x.len() implies #[trigger] x[i] != '"' by {
        if i == 0 {
        } else if i < 1 + d.len() {
            assert(x[i] == d[i - 1]);
        } else {
            assert(x[i] == tail[i - 1 - d.len()]);
        }
    }
}

/// In escaped text every quote follows a backslash.
pub proof fn lemma_escape_quotes(c: Seq<char>)
    ensures
        forall|q: int|
            0 <= q < escape(c).len() && #[trigger] escape(c)[q] == '"' ==> q >= 1 && escape(c)[q - 1]
                == '\\',
    decreases c.len(),
{
    if c.len() > 0 {
        lemma_escape_quotes(c.drop_last());
        let a = escape(c.drop_last());
        let b = esc_char(c.last());
        assert(escape(c) == a + b);
        assert forall|q: int| 0 <= q < escape(c).len() && #[trigger] escape(c)[q] == '"' implies q >= 1
            && escape(c)[q - 1] == '\\' by {
            if q < a.len() {
                assert(escape(c)[q] == a[q]);
                assert(escape(c)[q - 1] == a[q - 1]);
            } else {
                assert(escape(c)[q] == b[q - a.len()]);
                if q == a.len() {
                    assert(b[0] != '"');
                } else {
                    assert(escape(c)[q - 1] == b[q - 1 - a.len()]);
                }
            }
        }
    }
}

/// String text of an escaped body has no key-like close.
pub proof fn lemma_string_text_ok(c: Seq<char>)
    ensures
        text_ok(string_text(escape(c))),
{
    let e = escape(c);
    lemma_escape_quotes(c);
    reveal_strlit(" \"");
    reveal_strlit("\",\n  ");
    let x = string_text(e);
    assert(x == " \""@ + e + "\",\n  "@);
    assert forall|k: int| 1 <= k && k + 1 < x.len() implies !(#[trigger] key_close(x, k)) by {
        if key_close(x, k) {
            if k == 1 {
                assert(x[0] == ' ');
            } else if k < 2 + e.len() {
                assert(x[k] == e[k - 2]);
                if k - 2 >= 1 {
                    assert(x[k - 1] == e[k - 3]);
                }
            } else if k == 2 + e.len() {
                assert(x[k + 1] == ',');
            } else {
                assert(x[k] != '"');
            }
        }
    }
}

/// Two well-formed runs of pieces, not meeting text to text, make a well-formed run.
pub proof fn lemma_pieces_ok_concat(a: Seq<Piece>, b: Seq<Piece>)
    requires
        pieces_ok(a),
        pieces_ok(b),
        a.len() == 0 || b.len() == 0 || !(a.last() is Text && b[0] is Text),
    ensures
        pieces_ok(a + b),
{
    let ab = a + b;
    assert forall|i: int| 0 <= i < ab.len() implies match #[trigger] ab[i] {
        Piece::Key(_) => true,
        Piece::Text(s) => text_ok(s),
    } by {
        if i < a.len() {
            assert(ab[i] == a[i]);
        } else {
            assert(ab[i] == b[i - a.len()]);
        }
    }
    assert forall|i: int| 0 <= i && i + 1 < ab.len() implies !(#[trigger] ab[i] is Text && ab[i + 1] is Text) by {
        if i + 1 < a.len() {
            assert(ab[i] == a[i] && ab[i + 1] == a[i + 1]);
        } else if i + 1 == a.len() {
            assert(ab[i] == a.last() && ab[i + 1] == b[0]);
        } else {
            assert(ab[i] == b[i - a.len()] && ab[i + 1] == b[i + 1 - a.len()]);
        }
    }
}

/// Text without quotes, backslashes, newlines or tabs: it escapes to itself.
pub open spec fn plain(s: Seq<char>) -> bool {
    forall|i: int|
        0 <= i < s.len() ==> #[trigger] s[i] != '"' && s[i] != '\\' && s[i] != '\n' && s[i] != '\t'
}

/// Plain text escapes to itself.
pub proof fn lemma_escape_plain(s: Seq<char>)
    requires
        plain(s),
    ensures
        escape(s) == s,
    decreases s.len(),
{
    if s.len() > 0 {
        let init = s.drop_last();
        assert forall|i: int| 0 <= i < init.len() implies #[trigger] init[i] != '"' && init[i] != '\\'
            && init[i] != '\n' && init[i] != '\t' by {
            assert(init[i] == s[i]);
        }
        lemma_escape_plain(init);
        assert(s.last() == s[s.len() - 1]);
        assert(esc_char(s.last()) == seq![s.last()]);
        assert(init.push(s.last()) == s);
        assert(init + seq![s.last()] == s);
    }
}

/// Port names, economy names and outcome words are plain.
pub proof fn lemma_titles_plain(p: Port, m: EconomyMode, o: Option<Outcome>)
    ensures
        plain(p.title()),
        plain(m.title()),
        plain(outcome_word(o)),
        p.title().len() >= 2,
{
    reveal_strlit("Hong Kong");
    reveal_strlit("Shanghai");
    reveal_strlit("Nagasaki");
    reveal_strlit("Saigon");
    reveal_strlit("Manila");
    reveal_strlit("Singapore");
    reveal_strlit("Batavia");
    reveal_strlit("classic");
    reveal_strlit("trader");
    reveal_strlit("playing");
    reveal_strlit("won");
    reveal_strlit("ship_destroyed");
}

/// Text with no quote, joined to another, keeps none.
pub proof fn lemma_no_quote_concat(a: Seq<char>, b: Seq<char>)
    requires
        no_quote(a),
        no_quote(b),
    ensures
        no_quote(a + b),
{
    assert forall|i: int| 0 <= i < (a + b).len() implies #[trigger] (a + b)[i] != '"' by {
        if i < a.len() {
            assert((a + b)[i] == a[i]);
        } else {
            assert((a + b)[i] == b[i - a.len()]);
        }
    }
}

/// The literal texts between keys hold no quotes.
pub proof fn lemma_literals_no_quote()
    ensures
        no_quote("{\n  "@),
        no_quote(", "@),
        no_quote(" }"@),
        no_quote(eol()),
        no_quote(" { "@),
        no_quote(" ["@),
        no_quote("], "@),
        no_quote(" } },\n  "@),
        no_quote("\n}\n"@),
        no_quote(" "@),
        no_quote("true"@),
        no_quote("false"@),
        "{\n  "@.len() >= 1,
        " { "@.len() >= 1,
{
    reveal_strlit("{\n  ");
    reveal_strlit(", ");
    reveal_strlit(" }");
    reveal_strlit(",\n  ");
    reveal_strlit(" { ");
    reveal_strlit(" [");
    reveal_strlit("], ");
    reveal_strlit(" } },\n  ");
    reveal_strlit("\n}\n");
    reveal_strlit(" ");
    reveal_strlit("true");
    reveal_strlit("false");
}

/// A list of numbers holds no quotes.
pub proof fn lemma_number_list_no_quote(v: Seq<u32>)
    ensures
        no_quote(number_list(v)),
    decreases v.len(),
{
    lemma_literals_no_quote();
    if v.len() == 1 {
        lemma_decimal_no_quote(v[0] as nat);
    } else if v.len() > 1 {
        lemma_number_list_no_quote(v.drop_last());
        lemma_decimal_no_quote(v.last() as nat);
        lemma_no_quote_concat(number_list(v.drop_last()), ", "@);
        lemma_no_quote_concat(number_list(v.drop_last()) + ", "@, decimal(v.last() as nat));
    }
}

/// The opening pieces are well formed.
pub proof fn lemma_head_ok()
    ensures
        pieces_ok(head_pieces()),
{
    lemma_literals_no_quote();
    lemma_text_ok_plain("{\n  "@);
    lemma_number_text_no_quote(1, eol());
    lemma_text_ok_plain(number_text(1, eol()));
}

/// The pieces of either pending value are well formed.
pub proof fn lemma_pending_ok(p: Pending)
    ensures
        pieces_ok(pending_pieces(p)),
        pending_pieces(p).len() >= 1,
        pending_pieces(p)[0] is Text,
        pending_pieces(p).last() is Text,
{
    lemma_literals_no_quote();
    match p {
        Pending::Command => {
            reveal_strlit("command");
            assert(plain("command"@));
            lemma_escape_plain("command"@);
            lemma_string_text_ok("command"@);
        },
        Pending::Combat { enemies, sunk } => {
            lemma_text_ok_plain(" { "@);
            lemma_number_list_no_quote(enemies@);
            lemma_no_quote_concat(" ["@, number_list(enemies@));
            lemma_no_quote_concat(" ["@ + number_list(enemies@), "], "@);
            reveal_strlit(" [");
            lemma_text_ok_plain(" ["@ + number_list(enemies@) + "], "@);
            lemma_number_text_no_quote(sunk as nat, " } },\n  "@);
            lemma_text_ok_plain(number_text(sunk as nat, " } },\n  "@));
        },
    }
}

/// The pieces of a four-slot object are well formed.
pub proof fn lemma_slots_ok(u: Seq<u32>, tail: Seq<char>)
    requires
        u.len() == 4,
        no_quote(tail),
    ensures
        pieces_ok(slots_pieces(u, tail)),
{
    lemma_literals_no_quote();
    lemma_text_ok_plain(" { "@);
    lemma_number_text_no_quote(u[0] as nat, ", "@);
    lemma_text_ok_plain(number_text(u[0] as nat, ", "@));
    lemma_number_text_no_quote(u[1] as nat, ", "@);
    lemma_text_ok_plain(number_text(u[1] as nat, ", "@));
    lemma_number_text_no_quote(u[2] as nat, ", "@);
    lemma_text_ok_plain(number_text(u[2] as nat, ", "@));
    lemma_no_quote_concat(" }"@, tail);
    lemma_number_text_no_quote(u[3] as nat, " }"@ + tail);
    lemma_text_ok_plain(number_text(u[3] as nat, " }"@ + tail));
}

/// The decimal digits of a 32-bit value parse back as that value, also once trimmed
/// or with a leading space trimmed away.
pub proof fn lemma_decimal_parses32(n: nat)
    requires
        n <= u32::MAX,
    ensures
        parse_u32_spec(decimal(n)) == Some(n as u32),
        trim(decimal(n)) == decimal(n),
        trim(" "@ + decimal(n)) == decimal(n),
{
    lemma_decimal(n);
    let d = decimal(n);
    assert(is_digit(d[0]));
    assert(is_digit(d[d.len() - 1]));
    assert(trim_start(d) == d);
    assert(trim_end(d) == d);
    reveal_strlit(" ");
    let sd = " "@ + d;
    assert(sd[0] == ' ');
    assert(sd.drop_first() == d);
    assert(trim_start(sd) == trim_start(d));
}

/// Reading the comma-separated pieces of `p + y` from `p`'s end is reading `y`.
proof fn lemma_list_from_shift(p: Seq<char>, y: Seq<char>, j: int, cur: Seq<char>)
    requires
        0 <= j <= y.len(),
    ensures
        list_from(p + y, p.len() + j, cur) == list_from(y, j, cur),
    decreases y.len() - j,
{
    if j < y.len() {
        assert((p + y)[p.len() + j] == y[j]);
        lemma_list_from_shift(p, y, j + 1, Seq::empty());
        lemma_list_from_shift(p, y, j + 1, cur.push(y[j]));
    }
}

/// Reading the pieces of `x + "," + y` is reading those of `x`, then those of `y`.
proof fn lemma_list_from_comma(x: Seq<char>, y: Seq<char>, i: int, cur: Seq<char>)
    requires
        0 <= i <= x.len(),
    ensures
        list_from(x + seq![','] + y, i, cur) == list_from(x, i, cur) + list_from(y, 0, Seq::empty()),
    decreases x.len() - i,
{
    let s = x + seq![','] + y;
    if i < x.len() {
        assert(s[i] == x[i]);
        if x[i] == ',' {
            lemma_list_from_comma(x, y, i + 1, Seq::empty());
            assert(list_entry(cur) + (list_from(x, i + 1, Seq::empty()) + list_from(y, 0, Seq::empty()))
                == list_entry(cur) + list_from(x, i + 1, Seq::empty()) + list_from(y, 0, Seq::empty()));
        } else {
            lemma_list_from_comma(x, y, i + 1, cur.push(x[i]));
        }
    } else {
        assert(s[i] == ',');
        assert(s == (x + seq![',']) + y);
        lemma_list_from_shift(x + seq![','], y, 0, Seq::empty());
    }
}

/// Text without commas reads as one piece.
proof fn lemma_list_from_no_comma(s: Seq<char>, i: int, cur: Seq<char>)
    requires
        0 <= i <= s.len(),
        forall|k: int| 0 <= k < s.len() ==> #[trigger] s[k] != ',',
    ensures
        list_from(s, i, cur) == list_entry(cur + s.skip(i)),
    decreases s.len() - i,
{
    if i < s.len() {
        lemma_list_from_no_comma(s, i + 1, cur.push(s[i]));
        assert(cur.push(s[i]) + s.skip(i + 1) == cur + s.skip(i));
    } else {
        assert(cur + s.skip(i) == cur);
    }
}

/// A written list of numbers reads back as that list.
pub proof fn lemma_number_list_reads(v: Seq<u32>)
    ensures
        list_from(number_list(v), 0, Seq::empty()) == v,
    decreases v.len(),
{
    if v.len() == 0 {
        assert(trim(Seq::<char>::empty()) == Seq::<char>::empty());
        assert(v == Seq::<u32>::empty());
    } else if v.len() == 1 {
        let d = decimal(v[0] as nat);
        lemma_decimal(v[0] as nat);
        lemma_decimal_parses32(v[0] as nat);
        assert forall|k: int| 0 <= k < d.len() implies #[trigger] d[k] != ',' by {
            assert(is_digit(d[k]));
        }
        lemma_list_from_no_comma(d, 0, Seq::empty());
        assert(Seq::<char>::empty() + d.skip(0) == d);
        assert(v == seq![v[0]]);
    } else {
        let init = v.drop_last();
        let x = number_list(init);
        let d = decimal(v.last() as nat);
        lemma_decimal(v.last() as nat);
        lemma_decimal_parses32(v.last() as nat);
        reveal_strlit(", ");
        reveal_strlit(" ");
        let y = " "@ + d;
        assert(number_list(v) == x + ", "@ + d);
        assert(x + ", "@ + d == x + seq![','] + y);
        lemma_list_from_comma(x, y, 0, Seq::empty());
        lemma_number_list_reads(init);
        assert forall|k: int| 0 <= k < y.len() implies #[trigger] y[k] != ',' by {
            if k > 0 {
                assert(y[k] == d[k - 1]);
                assert(is_digit(d[k - 1]));
            }
        }
        lemma_list_from_no_comma(y, 0, Seq::empty());
        assert(Seq::<char>::empty() + y.skip(0) == y);
        assert(init + seq![v.last()] == v);
    }
}

/// No `c` in `s`.
pub open spec fn lacks_char(s: Seq<char>, c: char) -> bool {
    forall|i: int| 0 <= i < s.len() ==> #[trigger] s[i] != c
}

/// The first `c` of a text, found.
pub proof fn lemma_find_char_first(s: Seq<char>, c: char, e: int)
    requires
        0 <= e < s.len(),
        s[e] == c,
        lacks_char(s.take(e), c),
    ensures
        find_char(s, c, 0) == Some(e),
{
    lemma_find_from_found(s, seq![c], 0);
    assert(s.subrange(e, e + 1) =~= seq![c]);
    assert(occurs_at(s, seq![c], e));
    match find_from(s, seq![c], 0) {
        None => {
            assert(false);
        },
        Some(x) => {
            if x < e {
                assert(s.subrange(x, x + 1)[0] == s[x]);
                assert(s.take(e)[x] == s[x]);
                assert(false);
            }
        },
    }
}

/// Pieces whose texts lack a character that no key is written with lack it too.
pub proof fn lemma_joined_lacks(ps: Seq<Piece>, c: char)
    requires
        forall|i: int| 0 <= i < ps.len() ==> (#[trigger] ps[i] matches Piece::Text(x) ==> lacks_char(x, c)),
        c != '"',
        c != ':',
        c != '_',
        !is_lower(c),
    ensures
        lacks_char(joined(ps), c),
    decreases ps.len(),
{
    if ps.len() > 0 {
        let init = ps.drop_last();
        assert forall|i: int| 0 <= i < init.len() implies (#[trigger] init[i] matches Piece::Text(
            x,
        ) ==> lacks_char(x, c)) by {
            assert(init[i] == ps[i]);
        }
        lemma_joined_lacks(init, c);
        let a = joined(init);
        let b = ps.last().chars();
        assert(ps[ps.len() - 1] == ps.last());
        if let Piece::Key(f) = ps.last() {
            lemma_field_name(f);
            lemma_key_chars(f.name());
            assert forall|i: int| 0 <= i < b.len() implies #[trigger] b[i] != c by {
                if 1 <= i <= f.name().len() {
                    assert(b[i] == f.name()[i - 1]);
                }
            }
        }
        assert forall|i: int| 0 <= i < (a + b).len() implies #[trigger] (a + b)[i] != c by {
            if i < a.len() {
                assert((a + b)[i] == a[i]);
            } else {
                assert((a + b)[i] == b[i - a.len()]);
            }
        }
    }
}

/// A number inside the object written after a key reads back: the object runs to its
/// first closing brace, which ends the text after its last key.
pub proof fn lemma_nested_field(
    ps: Seq<Piece>,
    i: int,
    outer: Field,
    body: Seq<Piece>,
    n: nat,
    close: Seq<char>,
    inner: Field,
    k: int,
    v: nat,
    vtail: Seq<char>,
)
    requires
        pieces_ok(ps),
        0 <= i,
        ps[i] == Piece::Key(outer),
        forall|m: int| 0 <= m < i ==> ps[m] != Piece::Key(outer),
        i + 1 + body.len() < ps.len(),
        ps.subrange(i + 1, i + 1 + body.len()) == body,
        ps[i + 1 + body.len()] == Piece::Text(number_text(n, " }"@ + close)),
        forall|j: int| 0 <= j < body.len() ==> (#[trigger] body[j] matches Piece::Text(x) ==> lacks_char(x, '}')),
        n <= u64::MAX,
        pieces_ok(body.push(Piece::Text(number_text(n, " "@)))),
        0 <= k,
        k + 1 < body.len() + 1,
        body.push(Piece::Text(number_text(n, " "@)))[k] == Piece::Key(inner),
        forall|m: int| 0 <= m < k ==> body.push(Piece::Text(number_text(n, " "@)))[m] != Piece::Key(inner),
        body.push(Piece::Text(number_text(n, " "@)))[k + 1] == Piece::Text(number_text(v, vtail)),
        v <= u64::MAX,
        vtail.len() >= 1,
        !is_digit(vtail[0]),
    ensures
        nested_field(joined(ps), outer.name(), inner.name()) == Ok::<u64, Seq<char>>(v as u64),
{
    let t = joined(ps);
    let w = body.push(Piece::Text(number_text(n, " "@)));
    lemma_field_start(ps, i, outer);
    let a = offset(ps, i + 1);
    lemma_skip_joined(ps, i + 1);
    let q = ps.skip(i + 1);
    let r = ps.skip(i + 1 + body.len());
    assert(q == body + r);
    lemma_joined_concat(body, r);
    lemma_split_at(r, 1);
    assert(r.take(1) == seq![r[0]]);
    assert(seq![r[0]].drop_last() == Seq::<Piece>::empty());
    assert(joined(Seq::<Piece>::empty()) == Seq::<char>::empty());
    let x = number_text(n, " }"@ + close);
    assert(joined(r.take(1)) == Seq::<char>::empty() + x);
    let jb = joined(body);
    let rest = t.skip(a);
    assert(rest == jb + (x + joined(r.skip(1))));
    let d = decimal(n);
    lemma_decimal(n);
    reveal_strlit(" ");
    reveal_strlit(" }");
    assert(x == " "@ + d + (" }"@ + close));
    let e: int = jb.len() as int + 1 + d.len() as int + 1;
    assert(rest[e] == x[1 + d.len() as int + 1]);
    assert(x[1 + d.len() as int + 1] == '}');
    lemma_joined_push(body, Piece::Text(number_text(n, " "@)));
    let y = number_text(n, " "@);
    assert(y == " "@ + d + " "@);
    assert(joined(w) == jb + y);
    assert forall|z: int| 0 <= z < e implies #[trigger] rest.take(e)[z] == joined(w)[z] by {
        if z < jb.len() {
        } else if z < jb.len() + 1 + d.len() {
            assert(rest[z] == x[z - jb.len()]);
            assert(joined(w)[z] == y[z - jb.len()]);
        } else {
            assert(rest[z] == x[z - jb.len()]);
        }
    }
    assert(rest.take(e) =~= joined(w));
    assert forall|z: int| 0 <= z < y.len() implies #[trigger] y[z] != '}' by {
        if 1 <= z < 1 + d.len() {
            assert(y[z] == d[z - 1]);
            assert(is_digit(d[z - 1]));
        }
    }
    assert forall|j: int| 0 <= j < w.len() implies (#[trigger] w[j] matches Piece::Text(xx) ==> lacks_char(
        xx,
        '}',
    )) by {
        if j < body.len() {
            assert(w[j] == body[j]);
        }
    }
    lemma_joined_lacks(w, '}');
    lemma_find_char_first(rest, '}', e);
    lemma_number_field(w, k, inner, v, vtail);
}

/// The pieces of a four-slot object up to its last number, closed by a space.
pub open spec fn slots_window(u: Seq<u32>, tail: Seq<char>) -> Seq<Piece> {
    slots_pieces(u, tail).take(8).push(Piece::Text(number_text(u[3] as nat, " "@)))
}

/// The four values of a slots object read back.
pub proof fn lemma_slot_fields(ps: Seq<Piece>, i: int, f: Field, u: Seq<u32>, tail: Seq<char>)
    requires
        pieces_ok(ps),
        0 <= i,
        ps[i] == Piece::Key(f),
        forall|m: int| 0 <= m < i ==> ps[m] != Piece::Key(f),
        i + 10 <= ps.len(),
        ps.subrange(i + 1, i + 10) == slots_pieces(u, tail),
        u.len() == 4,
    ensures
        slot_fields(joined(ps), f.name()) == Ok::<Seq<u32>, Seq<char>>(u),
{
    let sp = slots_pieces(u, tail);
    let body = sp.take(8);
    let w = slots_window(u, tail);
    lemma_literals_no_quote();
    reveal_strlit(", ");
    reveal_strlit(" ");
    reveal_strlit(" { ");
    lemma_text_ok_plain(" { "@);
    lemma_number_text_no_quote(u[0] as nat, ", "@);
    lemma_text_ok_plain(number_text(u[0] as nat, ", "@));
    lemma_number_text_no_quote(u[1] as nat, ", "@);
    lemma_text_ok_plain(number_text(u[1] as nat, ", "@));
    lemma_number_text_no_quote(u[2] as nat, ", "@);
    lemma_text_ok_plain(number_text(u[2] as nat, ", "@));
    lemma_number_text_no_quote(u[3] as nat, " "@);
    lemma_text_ok_plain(number_text(u[3] as nat, " "@));
    assert(pieces_ok(w));
    assert(ps.subrange(i + 1, i + 9) == body);
    assert(ps[i + 9] == sp[8]);
    assert(forall|j: int| 0 <= j < body.len() ==> (#[trigger] body[j] matches Piece::Text(x) ==> lacks_char(x, '}'))) by {
        assert forall|j: int| 0 <= j < body.len() implies (#[trigger] body[j] matches Piece::Text(x) ==> lacks_char(x, '}')) by {
            if j == 0 {
            } else if j == 2 || j == 4 || j == 6 {
                let v = u[j / 2 - 1] as nat;
                lemma_decimal(v);
                let x = number_text(v, ", "@);
                assert forall|z: int| 0 <= z < x.len() implies #[trigger] x[z] != '}' by {
                    if 1 <= z < 1 + decimal(v).len() {
                        assert(x[z] == decimal(v)[z - 1]);
                        assert(is_digit(decimal(v)[z - 1]));
                    }
                }
            }
        }
    }
    assert(!is_digit(", "@[0]));
    assert(!is_digit(" "@[0]));
    lemma_nested_field(ps, i, f, body, u[3] as nat, tail, Field::Opium, 1, u[0] as nat, ", "@);
    lemma_nested_field(ps, i, f, body, u[3] as nat, tail, Field::Silk, 3, u[1] as nat, ", "@);
    lemma_nested_field(ps, i, f, body, u[3] as nat, tail, Field::Arms, 5, u[2] as nat, ", "@);
    lemma_nested_field(ps, i, f, body, u[3] as nat, tail, Field::General, 7, u[3] as nat, " "@);
    assert(seq![u[0], u[1], u[2], u[3]] =~= u);
}

/// A written list of numbers holds only digits, commas and spaces.
pub proof fn lemma_number_list_chars(v: Seq<u32>)
    ensures
        forall|k: int|
            0 <= k < number_list(v).len() ==> is_digit(#[trigger] number_list(v)[k]) || number_list(v)[k]
                == ',' || number_list(v)[k] == ' ',
    decreases v.len(),
{
    if v.len() == 1 {
        lemma_decimal(v[0] as nat);
    } else if v.len() > 1 {
        lemma_number_list_chars(v.drop_last());
        lemma_decimal(v.last() as nat);
        reveal_strlit(", ");
        let a = number_list(v.drop_last());
        let d = decimal(v.last() as nat);
        assert(number_list(v) == a + ", "@ + d);
        assert forall|k: int| 0 <= k < number_list(v).len() implies is_digit(#[trigger] number_list(v)[k])
            || number_list(v)[k] == ',' || number_list(v)[k] == ' ' by {
            if k < a.len() {
                assert(number_list(v)[k] == a[k]);
            } else if k < a.len() + 2 {
            } else {
                assert(number_list(v)[k] == d[k - a.len() - 2]);
            }
        }
    }
}

/// The list of hull points written after `enemy_hps` reads back.
pub proof fn lemma_enemy_list(ps: Seq<Piece>, i: int, v: Seq<u32>)
    requires
        pieces_ok(ps),
        0 <= i,
        i + 1 < ps.len(),
        ps[i] == Piece::Key(Field::EnemyHps),
        forall|m: int| 0 <= m < i ==> ps[m] != Piece::Key(Field::EnemyHps),
        ps[i + 1] == Piece::Text(" ["@ + number_list(v) + "], "@),
    ensures
        enemy_list(joined(ps)) == Ok::<Seq<u32>, Seq<char>>(v),
{
    let t = joined(ps);
    reveal_strlit("\"enemy_hps\":");
    reveal_strlit("enemy_hps");
    assert("\"enemy_hps\":"@ =~= key_pattern(Field::EnemyHps.name()));
    lemma_key_found(ps, i, Field::EnemyHps);
    lemma_piece_at(ps, i);
    lemma_skip_joined(ps, i + 1);
    lemma_split_at(ps.skip(i + 1), 1);
    let q = ps.skip(i + 1);
    assert(q.take(1) == seq![q[0]]);
    assert(seq![q[0]].drop_last() == Seq::<Piece>::empty());
    assert(joined(Seq::<Piece>::empty()) == Seq::<char>::empty());
    let l = number_list(v);
    let x = " ["@ + l + "], "@;
    assert(joined(q.take(1)) == Seq::<char>::empty() + x);
    let rest = t.skip(offset(ps, i) + 12);
    assert(rest == x + joined(q.skip(1)));
    reveal_strlit(" [");
    reveal_strlit("], ");
    lemma_number_list_chars(v);
    assert(rest[0] == ' ');
    assert(rest[1] == '[');
    assert(rest.take(1) =~= seq![' ']);
    lemma_find_char_first(rest, '[', 1);
    let c: int = 2 + l.len() as int;
    assert(rest[c] == x[c]);
    assert(x[c] == ']');
    assert forall|z: int| 0 <= z < c implies #[trigger] rest.take(c)[z] != ']' by {
        assert(rest[z] == x[z]);
        if z >= 2 {
            assert(x[z] == l[z - 2]);
        }
    }
    lemma_find_char_first(rest, ']', c);
    assert forall|z: int| 0 <= z < l.len() implies #[trigger] rest.subrange(2, c)[z] == l[z] by {
        assert(rest[2 + z] == x[2 + z]);
    }
    assert(rest.subrange(2, c) =~= l);
    lemma_number_list_reads(v);
}

/// The battle written in the `pending` field reads back: its hull points and sunk count.
pub proof fn lemma_combat_fields(ps: Seq<Piece>, i: int, p: Pending)
    requires
        pieces_ok(ps),
        1 <= i,
        i + 6 <= ps.len(),
        p is Combat,
        ps.subrange(i - 1, i + 6) == pending_pieces(p),
        forall|m: int| 0 <= m < i ==> ps[m] != Piece::Key(Field::Combat),
        forall|m: int| 0 <= m < i + 1 ==> ps[m] != Piece::Key(Field::EnemyHps),
    ensures
        match p {
            Pending::Combat { enemies, sunk } => {
                &&& enemy_list(joined(ps)) == Ok::<Seq<u32>, Seq<char>>(enemies@)
                &&& nested_field(joined(ps), "combat"@, "sunk"@) == Ok::<u64, Seq<char>>(sunk as u64)
            },
            Pending::Command => true,
        },
{
    if let Pending::Combat { enemies, sunk } = p {
        let pp = pending_pieces(p);
        let l = number_list(enemies@);
        let lt = " ["@ + l + "], "@;
        assert(ps[i + 1] == pp[2]);
        assert(ps[i + 2] == pp[3]);
        assert(ps[i + 3] == pp[4]);
        assert(ps[i + 2] == Piece::Key(Field::EnemyHps));
        assert(ps[i + 3] == Piece::Text(lt));
        lemma_enemy_list(ps, i + 2, enemies@);
        lemma_literals_no_quote();
        reveal_strlit(" [");
        reveal_strlit("], ");
        reveal_strlit(" { ");
        reveal_strlit(" ");
        reveal_strlit(" }");
        reveal_strlit(" },\n  ");
        reveal_strlit(" } },\n  ");
        assert(" }"@ + " },\n  "@ =~= " } },\n  "@);
        let body = ps.subrange(i + 1, i + 5);
        assert(body =~= pp.subrange(2, 6));
        assert(ps[i + 5] == pp[6]);
        lemma_number_list_chars(enemies@);
        lemma_number_list_no_quote(enemies@);
        lemma_no_quote_concat(" ["@, l);
        lemma_no_quote_concat(" ["@ + l, "], "@);
        assert(lt.len() >= 1);
        lemma_text_ok_plain(lt);
        lemma_text_ok_plain(" { "@);
        lemma_number_text_no_quote(sunk as nat, " "@);
        lemma_text_ok_plain(number_text(sunk as nat, " "@));
        let w = body.push(Piece::Text(number_text(sunk as nat, " "@)));
        assert(pieces_ok(w));
        assert forall|j: int| 0 <= j < body.len() implies (#[trigger] body[j] matches Piece::Text(x) ==> lacks_char(
            x,
            '}',
        )) by {
            if j == 2 {
                assert forall|z: int| 0 <= z < lt.len() implies #[trigger] lt[z] != '}' by {
                    if 2 <= z < 2 + l.len() {
                        assert(lt[z] == l[z - 2]);
                    }
                }
            }
        }
        assert(!is_digit(" "@[0]));
        lemma_nested_field(ps, i, Field::Combat, body, sunk as nat, " },\n  "@, Field::Sunk, 3, sunk as nat, " "@);
    }
}

/// No piece of `ps` is the key `f`.
pub open spec fn lacks_key(ps: Seq<Piece>, f: Field) -> bool {
    forall|m: int| 0 <= m < ps.len() ==> #[trigger] ps[m] != Piece::Key(f)
}

/// A key standing at index `li` of a run, after pieces that lack it, is the first of its
/// name in the whole text.
pub proof fn lemma_located(a: Seq<Piece>, r: Seq<Piece>, b: Seq<Piece>, li: int, f: Field)
    requires
        0 <= li < r.len(),
        r[li] == Piece::Key(f),
        lacks_key(a, f),
        forall|m: int| 0 <= m < li ==> #[trigger] r[m] != Piece::Key(f),
    ensures
        (a + r + b)[a.len() + li] == Piece::Key(f),
        forall|m: int| 0 <= m < a.len() + li ==> #[trigger] (a + r + b)[m] != Piece::Key(f),
        forall|d: int| 0 <= d && li + d < r.len() ==> #[trigger] (a + r + b)[a.len() + li + d] == r[li + d],
{
    let ps = a + r + b;
    assert forall|m: int| 0 <= m < a.len() + li implies #[trigger] ps[m] != Piece::Key(f) by {
        if m < a.len() {
            assert(ps[m] == a[m]);
        } else {
            assert(ps[m] == r[m - a.len()]);
        }
    }
    assert forall|d: int| 0 <= d && li + d < r.len() implies #[trigger] ps[a.len() + li + d] == r[li + d] by {
        assert(ps[a.len() + li + d] == (a + r)[a.len() + li + d]);
    }
}

/// The pieces from `last_event` to `hold` are well formed.
pub proof fn lemma_middle_ok(s: Save)
    ensures
        pieces_ok(middle_pieces(s)),
{
    let g = s.game;
    lemma_literals_no_quote();
    lemma_string_text_ok(s.last_event@);
    lemma_titles_plain(g.location, g.mode, g.outcome);
    lemma_escape_plain(outcome_word(g.outcome));
    lemma_string_text_ok(outcome_word(g.outcome));
    lemma_escape_plain(g.mode.title());
    lemma_string_text_ok(g.mode.title());
    lemma_escape_plain(g.location.title());
    lemma_string_text_ok(g.location.title());
    let b = " "@ + bool_word(g.location == Port::HongKong) + eol();
    lemma_no_quote_concat(" "@, bool_word(g.location == Port::HongKong));
    lemma_no_quote_concat(" "@ + bool_word(g.location == Port::HongKong), eol());
    reveal_strlit(" ");
    lemma_text_ok_plain(b);
    lemma_number_text_no_quote(g.cash as nat, eol());
    lemma_text_ok_plain(number_text(g.cash as nat, eol()));
    lemma_number_text_no_quote(g.bank as nat, eol());
    lemma_text_ok_plain(number_text(g.bank as nat, eol()));
    lemma_number_text_no_quote(g.debt as nat, eol());
    lemma_text_ok_plain(number_text(g.debt as nat, eol()));
    lemma_number_text_no_quote(g.worth() as nat, eol());
    lemma_text_ok_plain(number_text(g.worth() as nat, eol()));
    lemma_number_text_no_quote(g.guns as nat, eol());
    lemma_text_ok_plain(number_text(g.guns as nat, eol()));
    lemma_number_text_no_quote(g.health as nat, eol());
    lemma_text_ok_plain(number_text(g.health as nat, eol()));
    lemma_number_text_no_quote(g.hold.cap() as nat, eol());
    lemma_text_ok_plain(number_text(g.hold.cap() as nat, eol()));
    lemma_number_text_no_quote(crate::state::reported_free(g.hold), eol());
    lemma_text_ok_plain(number_text(crate::state::reported_free(g.hold), eol()));
}

/// Two runs lacking a key lack it together.
pub proof fn lemma_lacks_concat(a: Seq<Piece>, b: Seq<Piece>, f: Field)
    requires
        lacks_key(a, f),
        lacks_key(b, f),
    ensures
        lacks_key(a + b, f),
{
    assert forall|m: int| 0 <= m < (a + b).len() implies #[trigger] (a + b)[m] != Piece::Key(f) by {
        if m < a.len() {
            assert((a + b)[m] == a[m]);
        } else {
            assert((a + b)[m] == b[m - a.len()]);
        }
    }
}

/// The closing pieces are well formed.
pub proof fn lemma_tail_ok(s: Save)
    ensures
        pieces_ok(tail_pieces(s)),
{
    lemma_literals_no_quote();
    lemma_number_text_no_quote(s.rng_state as nat, "\n}\n"@);
    lemma_text_ok_plain(number_text(s.rng_state as nat, "\n}\n"@));
}

/// A save's pieces are well formed.
pub proof fn lemma_save_ok(s: Save)
    ensures
        pieces_ok(save_pieces(s)),
{
    let h = head_pieces();
    let p = pending_pieces(s.pending);
    let m = middle_pieces(s);
    s.game.hold.lemma_len();
    let s1 = slots_pieces(s.game.hold.cargo(), eol());
    let kw = seq![Piece::Key(Field::Warehouse)];
    let s2 = slots_pieces(s.game.warehouse@, eol());
    let kp = seq![Piece::Key(Field::Prices)];
    let s3 = slots_pieces(s.game.market@, eol());
    s.game.market.lemma_len();
    let t = tail_pieces(s);
    lemma_literals_no_quote();
    lemma_head_ok();
    lemma_pending_ok(s.pending);
    lemma_middle_ok(s);
    lemma_slots_ok(s.game.hold.cargo(), eol());
    lemma_slots_ok(s.game.warehouse@, eol());
    lemma_slots_ok(s.game.market@, eol());
    lemma_tail_ok(s);
    assert(pieces_ok(kw));
    assert(pieces_ok(kp));
    lemma_pieces_ok_concat(h, p);
    lemma_pieces_ok_concat(h + p, m);
    lemma_pieces_ok_concat(h + p + m, s1);
    lemma_pieces_ok_concat(h + p + m + s1, kw);
    lemma_pieces_ok_concat(h + p + m + s1 + kw, s2);
    lemma_pieces_ok_concat(h + p + m + s1 + kw + s2, kp);
    lemma_pieces_ok_concat(h + p + m + s1 + kw + s2 + kp, s3);
    lemma_pieces_ok_concat(h + p + m + s1 + kw + s2 + kp + s3, t);
}

/// The pieces after the middle run.
pub open spec fn after_middle(s: Save) -> Seq<Piece> {
    slots_pieces(s.game.hold.cargo(), eol()) + seq![Piece::Key(Field::Warehouse)] + slots_pieces(
        s.game.warehouse@,
        eol(),
    ) + seq![Piece::Key(Field::Prices)] + slots_pieces(s.game.market@, eol()) + tail_pieces(s)
}

/// A save's pieces: the head and pending value, the middle run, and the rest.
pub proof fn lemma_save_split(s: Save)
    ensures
        save_pieces(s) == head_pieces() + pending_pieces(s.pending) + middle_pieces(s) + after_middle(s),
{
    let h = head_pieces();
    let p = pending_pieces(s.pending);
    let m = middle_pieces(s);
    let s1 = slots_pieces(s.game.hold.cargo(), eol());
    let kw = seq![Piece::Key(Field::Warehouse)];
    let s2 = slots_pieces(s.game.warehouse@, eol());
    let kp = seq![Piece::Key(Field::Prices)];
    let s3 = slots_pieces(s.game.market@, eol());
    let t = tail_pieces(s);
    assert(h + p + m + s1 + kw + s2 + kp + s3 + t =~= h + p + m + (s1 + kw + s2 + kp + s3 + t));
}

/// A key of the middle run is the first of its name in a save's text.
pub proof fn lemma_middle_key(s: Save, li: int, f: Field)
    requires
        0 <= li < 27,
        middle_pieces(s)[li] == Piece::Key(f),
        forall|m: int| 0 <= m < li ==> #[trigger] middle_pieces(s)[m] != Piece::Key(f),
        f != Field::Version,
        f != Field::Pending,
        f != Field::Combat,
        f != Field::EnemyHps,
        f != Field::Sunk,
    ensures
        ({
            let ps = save_pieces(s);
            let k = (head_pieces() + pending_pieces(s.pending)).len() + li;
            &&& ps[k] == Piece::Key(f)
            &&& forall|m: int| 0 <= m < k ==> #[trigger] ps[m] != Piece::Key(f)
            &&& li + 1 < 27 ==> ps[k + 1] == middle_pieces(s)[li + 1]
        }),
{
    let a = head_pieces() + pending_pieces(s.pending);
    lemma_save_split(s);
    assert(lacks_key(head_pieces(), f));
    assert(lacks_key(pending_pieces(s.pending), f));
    lemma_lacks_concat(head_pieces(), pending_pieces(s.pending), f);
    lemma_located(a, middle_pieces(s), after_middle(s), li, f);
    if li + 1 < 27 {
        assert((a + middle_pieces(s) + after_middle(s))[a.len() + li + 1] == middle_pieces(s)[li + 1]);
    }
}

/// A string field of the middle run reads back.
pub proof fn lemma_read_string(s: Save, li: int, f: Field, c: Seq<char>)
    requires
        0 <= li < 26,
        middle_pieces(s)[li] == Piece::Key(f),
        forall|m: int| 0 <= m < li ==> #[trigger] middle_pieces(s)[m] != Piece::Key(f),
        f != Field::Version,
        f != Field::Pending,
        f != Field::Combat,
        f != Field::EnemyHps,
        f != Field::Sunk,
        middle_pieces(s)[li + 1] == Piece::Text(string_text(escape(c))),
    ensures
        string_field(joined(save_pieces(s)), f.name()) == Ok::<Seq<char>, Seq<char>>(c),
{
    let ps = save_pieces(s);
    let k0: int = (head_pieces() + pending_pieces(s.pending)).len() as int;
    lemma_save_ok(s);
    lemma_middle_key(s, li, f);
    lemma_string_field(ps, k0 + li, f, c);
}

/// The string fields of a save read back.
pub proof fn lemma_read_strings(s: Save)
    ensures
        string_field(joined(save_pieces(s)), "last_event"@) == Ok::<Seq<char>, Seq<char>>(s.last_event@),
        string_field(joined(save_pieces(s)), "outcome"@) == Ok::<Seq<char>, Seq<char>>(
            outcome_word(s.game.outcome),
        ),
        string_field(joined(save_pieces(s)), "mode"@) == Ok::<Seq<char>, Seq<char>>(s.game.mode.title()),
        string_field(joined(save_pieces(s)), "location"@) == Ok::<Seq<char>, Seq<char>>(
            s.game.location.title(),
        ),
{
    let g = s.game;
    lemma_titles_plain(g.location, g.mode, g.outcome);
    lemma_read_string(s, 0, Field::LastEvent, s.last_event@);
    lemma_escape_plain(outcome_word(g.outcome));
    lemma_read_string(s, 2, Field::Outcome, outcome_word(g.outcome));
    lemma_escape_plain(g.mode.title());
    lemma_read_string(s, 4, Field::Mode, g.mode.title());
    lemma_escape_plain(g.location.title());
    lemma_read_string(s, 6, Field::Location, g.location.title());
}

/// A number field of the middle run reads back.
pub proof fn lemma_read_number(s: Save, li: int, f: Field, n: nat)
    requires
        0 <= li < 26,
        middle_pieces(s)[li] == Piece::Key(f),
        forall|m: int| 0 <= m < li ==> #[trigger] middle_pieces(s)[m] != Piece::Key(f),
        f != Field::Version,
        f != Field::Pending,
        f != Field::Combat,
        f != Field::EnemyHps,
        f != Field::Sunk,
        middle_pieces(s)[li + 1] == Piece::Text(number_text(n, eol())),
        n <= u64::MAX,
    ensures
        number_field(joined(save_pieces(s)), f.name()) == Ok::<u64, Seq<char>>(n as u64),
{
    let ps = save_pieces(s);
    let k0: int = (head_pieces() + pending_pieces(s.pending)).len() as int;
    lemma_save_ok(s);
    reveal_strlit(",\n  ");
    assert(!is_digit(eol()[0]));
    lemma_middle_key(s, li, f);
    lemma_number_field(ps, k0 + li, f, n, eol());
}

/// The number fields of a save read back.
pub proof fn lemma_read_numbers(s: Save)
    ensures
        number_field(joined(save_pieces(s)), "cash"@) == Ok::<u64, Seq<char>>(s.game.cash as u64),
        number_field(joined(save_pieces(s)), "bank"@) == Ok::<u64, Seq<char>>(s.game.bank),
        number_field(joined(save_pieces(s)), "debt"@) == Ok::<u64, Seq<char>>(s.game.debt),
        number_field(joined(save_pieces(s)), "guns"@) == Ok::<u64, Seq<char>>(s.game.guns as u64),
        number_field(joined(save_pieces(s)), "health"@) == Ok::<u64, Seq<char>>(s.game.health as u64),
        number_field(joined(save_pieces(s)), "hold_capacity"@) == Ok::<u64, Seq<char>>(
            s.game.hold.cap() as u64,
        ),
{
    let g = s.game;
    lemma_read_number(s, 10, Field::Cash, g.cash as nat);
    lemma_read_number(s, 12, Field::Bank, g.bank as nat);
    lemma_read_number(s, 14, Field::Debt, g.debt as nat);
    lemma_read_number(s, 18, Field::Guns, g.guns as nat);
    lemma_read_number(s, 20, Field::Health, g.health as nat);
    lemma_read_number(s, 22, Field::HoldCapacity, g.hold.cap() as nat);
}

/// The version field reads back.
pub proof fn lemma_read_version(s: Save)
    ensures
        number_field(joined(save_pieces(s)), "version"@) == Ok::<u64, Seq<char>>(1),
{
    let ps = save_pieces(s);
    lemma_save_ok(s);
    reveal_strlit(",\n  ");
    assert(!is_digit(eol()[0]));
    lemma_save_split(s);
    let h = head_pieces();
    assert(ps[1] == h[1] && ps[2] == h[2] && ps[0] == h[0]);
    lemma_number_field(ps, 1, Field::Version, 1, eol());
}

/// The cargo object reads back.
#[verifier::rlimit(40)]
pub proof fn lemma_read_hold(s: Save)
    ensures
        slot_fields(joined(save_pieces(s)), "hold"@) == Ok::<Seq<u32>, Seq<char>>(s.game.hold.cargo()),
{
    let ps = save_pieces(s);
    lemma_save_ok(s);
    s.game.hold.lemma_len();
    lemma_save_split(s);
    let k0: int = (head_pieces() + pending_pieces(s.pending)).len() as int;
    lemma_middle_key(s, 26, Field::Hold);
    let a = head_pieces() + pending_pieces(s.pending);
    let m = middle_pieces(s);
    let s1 = slots_pieces(s.game.hold.cargo(), eol());
    let rest = after_middle(s);
    assert(rest.take(9) =~= s1);
    assert forall|x: int| 0 <= x < 9 implies #[trigger] ps.subrange(k0 + 27, k0 + 36)[x] == s1[x] by {
        assert((a + m + rest)[a.len() + m.len() + x] == rest[x]);
        assert(rest[x] == rest.take(9)[x]);
    }
    assert(ps.subrange(k0 + 27, k0 + 36) =~= s1);
    lemma_slot_fields(ps, k0 + 26, Field::Hold, s.game.hold.cargo(), eol());
}

/// The pieces before the warehouse key.
pub open spec fn before_warehouse(s: Save) -> Seq<Piece> {
    head_pieces() + pending_pieces(s.pending) + middle_pieces(s) + slots_pieces(s.game.hold.cargo(), eol())
}

/// The runs before the warehouse key lack a key that none of them holds.
pub proof fn lemma_before_warehouse_lacks(s: Save, f: Field)
    requires
        lacks_key(head_pieces(), f),
        lacks_key(pending_pieces(s.pending), f),
        lacks_key(middle_pieces(s), f),
        lacks_key(slots_pieces(s.game.hold.cargo(), eol()), f),
    ensures
        lacks_key(before_warehouse(s), f),
{
    let h = head_pieces();
    let p = pending_pieces(s.pending);
    let m = middle_pieces(s);
    lemma_lacks_concat(h, p, f);
    lemma_lacks_concat(h + p, m, f);
    lemma_lacks_concat(h + p + m, slots_pieces(s.game.hold.cargo(), eol()), f);
}

/// The warehouse object reads back.
pub proof fn lemma_read_warehouse(s: Save)
    ensures
        slot_fields(joined(save_pieces(s)), "warehouse"@) == Ok::<Seq<u32>, Seq<char>>(s.game.warehouse@),
{
    let ps = save_pieces(s);
    lemma_save_ok(s);
    let a = before_warehouse(s);
    let kw = seq![Piece::Key(Field::Warehouse)];
    let s2 = slots_pieces(s.game.warehouse@, eol());
    let b = s2 + seq![Piece::Key(Field::Prices)] + slots_pieces(s.game.market@, eol()) + tail_pieces(s);
    assert(ps =~= a + kw + b);
    assert(lacks_key(head_pieces(), Field::Warehouse));
    assert(lacks_key(pending_pieces(s.pending), Field::Warehouse));
    assert(lacks_key(middle_pieces(s), Field::Warehouse));
    assert(lacks_key(slots_pieces(s.game.hold.cargo(), eol()), Field::Warehouse));
    lemma_before_warehouse_lacks(s, Field::Warehouse);
    lemma_located(a, kw, b, 0, Field::Warehouse);
    assert(ps.subrange(a.len() as int + 1, a.len() as int + 10) =~= s2);
    lemma_slot_fields(ps, a.len() as int, Field::Warehouse, s.game.warehouse@, eol());
}

/// The price object reads back.
#[verifier::rlimit(40)]
pub proof fn lemma_read_prices(s: Save)
    ensures
        slot_fields(joined(save_pieces(s)), "prices"@) == Ok::<Seq<u32>, Seq<char>>(s.game.market@),
{
    let ps = save_pieces(s);
    lemma_save_ok(s);
    s.game.market.lemma_len();
    let kw = seq![Piece::Key(Field::Warehouse)];
    let s2 = slots_pieces(s.game.warehouse@, eol());
    let a = before_warehouse(s) + kw + s2;
    let kp = seq![Piece::Key(Field::Prices)];
    let s3 = slots_pieces(s.game.market@, eol());
    let b = s3 + tail_pieces(s);
    assert(ps =~= a + kp + b);
    assert(lacks_key(head_pieces(), Field::Prices));
    assert(lacks_key(pending_pieces(s.pending), Field::Prices));
    assert(lacks_key(middle_pieces(s), Field::Prices));
    assert(lacks_key(slots_pieces(s.game.hold.cargo(), eol()), Field::Prices));
    assert(lacks_key(kw, Field::Prices));
    assert(lacks_key(s2, Field::Prices));
    lemma_before_warehouse_lacks(s, Field::Prices);
    lemma_lacks_concat(before_warehouse(s), kw, Field::Prices);
    lemma_lacks_concat(before_warehouse(s) + kw, s2, Field::Prices);
    lemma_located(a, kp, b, 0, Field::Prices);
    assert(ps.subrange(a.len() as int + 1, a.len() as int + 10) =~= s3);
    lemma_slot_fields(ps, a.len() as int, Field::Prices, s.game.market@, eol());
}

/// The generator state reads back.
pub proof fn lemma_read_rng(s: Save)
    ensures
        number_field(joined(save_pieces(s)), "rng_state"@) == Ok::<u64, Seq<char>>(s.rng_state),
{
    let ps = save_pieces(s);
    lemma_save_ok(s);
    let kw = seq![Piece::Key(Field::Warehouse)];
    let s2 = slots_pieces(s.game.warehouse@, eol());
    let kp = seq![Piece::Key(Field::Prices)];
    let s3 = slots_pieces(s.game.market@, eol());
    let a = before_warehouse(s) + kw + s2 + kp + s3;
    let t = tail_pieces(s);
    assert(ps =~= a + t + Seq::<Piece>::empty());
    assert(lacks_key(head_pieces(), Field::RngState));
    assert(lacks_key(pending_pieces(s.pending), Field::RngState));
    assert(lacks_key(middle_pieces(s), Field::RngState));
    assert(lacks_key(slots_pieces(s.game.hold.cargo(), eol()), Field::RngState));
    assert(lacks_key(kw, Field::RngState));
    assert(lacks_key(s2, Field::RngState));
    assert(lacks_key(kp, Field::RngState));
    assert(lacks_key(s3, Field::RngState));
    lemma_before_warehouse_lacks(s, Field::RngState);
    lemma_lacks_concat(before_warehouse(s), kw, Field::RngState);
    lemma_lacks_concat(before_warehouse(s) + kw, s2, Field::RngState);
    lemma_lacks_concat(before_warehouse(s) + kw + s2, kp, Field::RngState);
    lemma_lacks_concat(before_warehouse(s) + kw + s2 + kp, s3, Field::RngState);
    lemma_located(a, t, Seq::<Piece>::empty(), 0, Field::RngState);
    reveal_strlit("\n}\n");
    assert(!is_digit("\n}\n"@[0]));
    lemma_number_field(ps, a.len() as int, Field::RngState, s.rng_state as nat, "\n}\n"@);
}

/// Whether a save is mid-battle reads back, and so does the battle.
#[verifier::rlimit(40)]
pub proof fn lemma_read_pending(s: Save)
    ensures
        (find_from(joined(save_pieces(s)), "\"combat\":"@, 0) is Some) == (s.pending is Combat),
        match s.pending {
            Pending::Combat { enemies, sunk } => {
                &&& enemy_list(joined(save_pieces(s))) == Ok::<Seq<u32>, Seq<char>>(enemies@)
                &&& nested_field(joined(save_pieces(s)), "combat"@, "sunk"@) == Ok::<u64, Seq<char>>(
                    sunk as u64,
                )
            },
            Pending::Command => true,
        },
{
    let ps = save_pieces(s);
    lemma_save_ok(s);
    reveal_strlit("\"combat\":");
    reveal_strlit("combat");
    assert("\"combat\":"@ =~= key_pattern(Field::Combat.name()));
    let h = head_pieces();
    let p = pending_pieces(s.pending);
    let rest = middle_pieces(s) + after_middle(s);
    lemma_save_split(s);
    assert(ps =~= h + p + rest);
    match s.pending {
        Pending::Command => {
            let kw = seq![Piece::Key(Field::Warehouse)];
            let s2 = slots_pieces(s.game.warehouse@, eol());
            let kp = seq![Piece::Key(Field::Prices)];
            let s3 = slots_pieces(s.game.market@, eol());
            let t = tail_pieces(s);
            assert(lacks_key(h, Field::Combat));
            assert(lacks_key(p, Field::Combat));
            assert(lacks_key(middle_pieces(s), Field::Combat));
            assert(lacks_key(slots_pieces(s.game.hold.cargo(), eol()), Field::Combat));
            assert(lacks_key(kw, Field::Combat));
            assert(lacks_key(s2, Field::Combat));
            assert(lacks_key(kp, Field::Combat));
            assert(lacks_key(s3, Field::Combat));
            assert(lacks_key(t, Field::Combat));
            lemma_before_warehouse_lacks(s, Field::Combat);
            let b = before_warehouse(s);
            lemma_lacks_concat(b, kw, Field::Combat);
            lemma_lacks_concat(b + kw, s2, Field::Combat);
            lemma_lacks_concat(b + kw + s2, kp, Field::Combat);
            lemma_lacks_concat(b + kw + s2 + kp, s3, Field::Combat);
            lemma_lacks_concat(b + kw + s2 + kp + s3, t, Field::Combat);
            assert(ps =~= b + kw + s2 + kp + s3 + t);
            lemma_key_absent(ps, Field::Combat);
        },
        Pending::Combat { enemies, sunk } => {
            assert(lacks_key(h, Field::Combat));
            assert(lacks_key(h, Field::EnemyHps));
            lemma_located(h, p, rest, 1, Field::Combat);
            lemma_located(h, p, rest, 3, Field::EnemyHps);
            assert(ps.subrange(4, 11) =~= p);
            lemma_key_found(ps, 5, Field::Combat);
            lemma_combat_fields(ps, 5, s.pending);
        },
    }
}

/// The names a save writes for ports, economies and outcomes read back.
pub proof fn lemma_names_read(p: Port, m: EconomyMode, o: Option<Outcome>)
    ensures
        port_named(p.title()) == Some(p),
        mode_named(m.title()) == Some(m),
        outcome_named(outcome_word(o)) == Some(o),
{
    reveal_strlit("Hong Kong");
    reveal_strlit("Shanghai");
    reveal_strlit("Nagasaki");
    reveal_strlit("Saigon");
    reveal_strlit("Manila");
    reveal_strlit("Singapore");
    reveal_strlit("Batavia");
    reveal_strlit("classic");
    reveal_strlit("trader");
    reveal_strlit("playing");
    reveal_strlit("won");
    reveal_strlit("ship_destroyed");
    assert(sig(Port::HongKong.title()) == (9nat, 'H', 'o'));
    assert(sig(Port::Shanghai.title()) == (8nat, 'S', 'h'));
    assert(sig(Port::Nagasaki.title()) == (8nat, 'N', 'a'));
    assert(sig(Port::Saigon.title()) == (6nat, 'S', 'a'));
    assert(sig(Port::Manila.title()) == (6nat, 'M', 'a'));
    assert(sig(Port::Singapore.title()) == (9nat, 'S', 'i'));
    assert(sig(Port::Batavia.title()) == (7nat, 'B', 'a'));
    let w = m.title();
    assert(!is_ws(w[0]));
    assert(!is_ws(w[w.len() - 1]));
    assert(trim_start(w) == w);
    assert(trim_end(w) == w);
    assert(sig("classic"@) == (7nat, 'c', 'l'));
    assert(sig("trader"@) == (6nat, 't', 'r'));
    assert("playing"@.len() == 7);
    assert("won"@.len() == 3);
    assert("ship_destroyed"@.len() == 14);
    match o {
        None => {},
        Some(Outcome::Won) => {
            assert("won"@ != "playing"@);
        },
        Some(Outcome::ShipDestroyed) => {
            assert("ship_destroyed"@ != "playing"@);
            assert("ship_destroyed"@ != "won"@);
        },
    }
}

/// A save that a game can be in (its cargo within its hold's capacity, its health
/// within the maximum), written out as JSON text and read back, gives back the same
/// save: every field of the game, the generator's state, whether a battle is under way
/// and its ships, and the note on the last event.
pub proof fn law_save_round_trip(s: Save)
    requires
        s.game.wf(),
        s.game.health <= MAX_HEALTH,
    ensures
        decode(json_text(s)) matches Ok(d) && decoded_as(s, d),
{
    let g = s.game;
    lemma_read_version(s);
    lemma_read_strings(s);
    lemma_read_numbers(s);
    lemma_read_hold(s);
    lemma_read_warehouse(s);
    lemma_read_prices(s);
    lemma_read_rng(s);
    lemma_read_pending(s);
    lemma_names_read(g.location, g.mode, g.outcome);
    g.hold.lemma_len();
    assert(total(g.hold.cargo()) <= g.hold.cap());
}

} // verus!
