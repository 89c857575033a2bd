//! A save on one line: the compact form for printing.

use vstd::prelude::*;
use crate::state::{Save, json_text, to_json};
use crate::text::{to_chars, chars_to_string};

verus! {

/// `t` on one line: each line break, and the indentation that follows it, taken out.
/// `fresh` says whether a line has just been broken.
pub open spec fn squeezed(t: Seq<char>, fresh: bool) -> Seq<char>
    decreases t.len(),
{
    if t.len() == 0 {
        Seq::empty()
    } else if t[0] == '\n' || (fresh && t[0] == ' ') {
        squeezed(t.drop_first(), true)
    } else {
        seq![t[0]] + squeezed(t.drop_first(), false)
    }
}

/// Squeezing leaves no line break.
pub proof fn lemma_squeezed_one_line(t: Seq<char>, fresh: bool)
    ensures
        forall|i: int| 0 <= i < squeezed(t, fresh).len() ==> #[trigger] squeezed(t, fresh)[i] != '\n',
    decreases t.len(),
{
    if t.len() > 0 {
        lemma_squeezed_one_line(t.drop_first(), true);
        lemma_squeezed_one_line(t.drop_first(), false);
        if t[0] == '\n' || (fresh && t[0] == ' ') {
            assert(squeezed(t, fresh) == squeezed(t.drop_first(), true));
        } else {
            let rest = squeezed(t.drop_first(), false);
            assert(squeezed(t, fresh) == seq![t[0]] + rest);
            assert forall|i: int| 0 <= i < (seq![t[0]] + rest).len() implies #[trigger] (seq![t[0]] + rest)[i]
                != '\n' by {
                if i > 0 {
                    assert((seq![t[0]] + rest)[i] == rest[i - 1]);
                } else {
                    assert((seq![t[0]] + rest)[0] == t[0]);
                }
            }
        }
    }
}

/// A save as one line of compact JSON: its JSON text with the line breaks and their
/// indentation taken out, so that it holds no line break.
pub fn to_json_line(save: &Save) -> (j: String)
    ensures
        j@ == squeezed(json_text(*save), false),
        forall|i: int| 0 <= i < j@.len() ==> #[trigger] j@[i] != '\n',
{
    let t = to_chars(to_json(save).as_str());
    let mut out: Vec<char> = Vec::new();
    let mut fresh = false;
    let mut i: usize = 0;
    assert(t@.skip(0) == t@);
    while i < t.len()
        invariant
            i <= t@.len(),
            out@ + squeezed(t@.skip(i as int), fresh) == squeezed(t@, false),
        decreases t@.len() - i,
    {
        let ghost rest = t@.skip(i as int);
        assert(rest[0] == t@[i as int]);
        assert(rest.drop_first() == t@.skip(i as int + 1));
        let c = t[i];
        if c == '\n' || (fresh && c == ' ') {
            fresh = true;
        } else {
            let ghost before = out@;
            out.push(c);
            assert(before + (seq![c] + squeezed(t@.skip(i as int + 1), false)) == out@ + squeezed(
                t@.skip(i as int + 1),
                false,
            ));
            fresh = false;
        }
        i = i + 1;
    }
    assert(squeezed(t@.skip(i as int), fresh) == Seq::<char>::empty());
    assert(out@ == squeezed(t@, false));
    assert(t@.skip(0) == t@);
    proof {
        lemma_squeezed_one_line(json_text(*save), false);
    }
    chars_to_string(&out)
}

} // verus!
