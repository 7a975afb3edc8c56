//! Text helpers shared by the storage model: equality and the byte-wise
//! (code point) ordering under which stored dates and timestamps are compared.

use vstd::prelude::*;

verus! {

/// Lexicographic order on texts by code point, the order in which the store
/// compares dates and timestamps (for UTF-8 text it agrees with comparing the
/// encoded bytes).
pub open spec fn text_le(a: Seq<char>, b: Seq<char>) -> bool
    decreases a.len(),
{
    if a.len() == 0 {
        true
    } else if b.len() == 0 {
        false
    } else if a[0] != b[0] {
        (a[0] as u32) < (b[0] as u32)
    } else {
        text_le(a.drop_first(), b.drop_first())
    }
}

/// `lo <= x <= hi` in text order: an inclusive range scan.
pub open spec fn in_text_range(x: Seq<char>, lo: Seq<char>, hi: Seq<char>) -> bool {
    text_le(lo, x) && text_le(x, hi)
}

pub proof fn lemma_text_le_reflexive(a: Seq<char>)
    ensures
        text_le(a, a),
    decreases a.len(),
{
    if a.len() > 0 {
        lemma_text_le_reflexive(a.drop_first());
    }
}

pub proof fn lemma_text_le_antisymmetric(a: Seq<char>, b: Seq<char>)
    requires
        text_le(a, b),
        text_le(b, a),
    ensures
        a == b,
    decreases a.len(),
{
    if a.len() > 0 && b.len() > 0 {
        lemma_text_le_antisymmetric(a.drop_first(), b.drop_first());
        assert(a[0] == b[0]);
        assert(a == seq![a[0]] + a.drop_first());
        assert(b == seq![b[0]] + b.drop_first());
    } else {
        assert(a.len() == 0 && b.len() == 0);
        assert(a =~= b);
    }
}

pub proof fn lemma_text_le_transitive(a: Seq<char>, b: Seq<char>, c: Seq<char>)
    requires
        text_le(a, b),
        text_le(b, c),
    ensures
        text_le(a, c),
    decreases a.len(),
{
    if a.len() > 0 && b.len() > 0 && c.len() > 0 {
        if a[0] == b[0] && b[0] == c[0] {
            lemma_text_le_transitive(a.drop_first(), b.drop_first(), c.drop_first());
        }
    }
}

pub proof fn lemma_text_le_total(a: Seq<char>, b: Seq<char>)
    ensures
        text_le(a, b) || text_le(b, a),
    decreases a.len(),
{
    if a.len() > 0 && b.len() > 0 {
        if a[0] == b[0] {
            lemma_text_le_total(a.drop_first(), b.drop_first());
        } else {
            vstd::utf8::char_u32_cast(a[0], a[0] as u32);
            vstd::utf8::char_u32_cast(b[0], b[0] as u32);
        }
    }
}

/// The inclusive range from `lo` to `hi` holds `x` exactly when all three are
/// the same text, where `lo` and `hi` are.
pub proof fn lemma_point_range(x: Seq<char>, d: Seq<char>)
    ensures
        in_text_range(x, d, d) <==> x == d,
{
    lemma_text_le_reflexive(d);
    if in_text_range(x, d, d) {
        lemma_text_le_antisymmetric(x, d);
    }
}

/// An inverted range holds nothing.
pub proof fn lemma_inverted_range(x: Seq<char>, lo: Seq<char>, hi: Seq<char>)
    requires
        !text_le(lo, hi),
    ensures
        !in_text_range(x, lo, hi),
{
    if in_text_range(x, lo, hi) {
        lemma_text_le_transitive(lo, x, hi);
    }
}

/// Whether two texts are equal.
pub fn same_text(a: &str, b: &str) -> (r: bool)
    ensures
        r == (a@ == b@),
{
    a.to_owned() == b.to_owned()
}

/// Whether `a` comes no later than `b` in text order.
pub fn text_leq(a: &str, b: &str) -> (r: bool)
    ensures
        r == text_le(a@, b@),
{
    let la = a.unicode_len();
    let lb = b.unicode_len();
    let mut i: usize = 0;
    proof {
        assert(a@.subrange(0, la as int) == a@);
        assert(b@.subrange(0, lb as int) == b@);
    }
    while i < la && i < lb
        invariant
            la == a@.len(),
            lb == b@.len(),
            i <= la,
            i <= lb,
            a@.subrange(0, i as int) == b@.subrange(0, i as int),
            text_le(a@, b@) == text_le(a@.subrange(i as int, la as int), b@.subrange(i as int, lb as int)),
        decreases la - i,
    {
        let ca = a.get_char(i);
        let cb = b.get_char(i);
        if ca != cb {
            return (ca as u32) < (cb as u32);
        }
        proof {
            assert(a@.subrange(i as int, la as int).drop_first() == a@.subrange(i + 1, la as int));
            assert(b@.subrange(i as int, lb as int).drop_first() == b@.subrange(i + 1, lb as int));
            assert(ca == cb);
            assert(a@.subrange(0, i + 1) == a@.subrange(0, i as int).push(ca));
            assert(b@.subrange(0, i + 1) == b@.subrange(0, i as int).push(cb));
        }
        i = i + 1;
    }
    i == la
}

} // verus!
