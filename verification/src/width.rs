//! Display-width bookkeeping: the number of terminal columns each Unicode
//! scalar value occupies, and the total width of a run of plain (unstyled)
//! text.

use vstd::prelude::*;

use crate::chars::str_to_chars;

verus! {

/// The number of terminal columns one Unicode scalar value occupies, with
/// control characters counting as zero columns.
pub uninterp spec fn char_cols(c: char) -> nat;

/// Relies on `unicode_width::UnicodeWidthChar::width`: the column count of a
/// single scalar value per Unicode's East-Asian-width rules, `None` for
/// control characters. The result depends on the character alone. The
/// source returns at most 3 columns; it returns 1 for every printable ASCII
/// character and `None` below U+0020; U+E0B0 and U+E0B2 are East-Asian
/// Ambiguous and not letters, hence 1 column.
#[verifier::external_body]
pub(crate) fn char_width(c: char) -> (w: usize)
    ensures
        w == char_cols(c),
        w <= 3,
        ' ' <= c && c <= '~' ==> w == 1,
        (c as u32) < 0x20 ==> w == 0,
        c == '\u{e0b0}' ==> w == 1,
        c == '\u{e0b2}' ==> w == 1,
{
    unicode_width::UnicodeWidthChar::width(c).unwrap_or(0)
}

/// Total display width of plain text: the sum of the per-scalar column
/// counts. Styling is never applied to text measured this way.
pub open spec fn plain_width(s: Seq<char>) -> nat
    decreases s.len(),
{
    if s.len() == 0 {
        0
    } else {
        char_cols(s[0]) + plain_width(s.skip(1))
    }
}

/// Appending one scalar adds exactly its column count.
pub proof fn lemma_plain_width_snoc(s: Seq<char>, c: char)
    ensures
        plain_width(s.push(c)) == plain_width(s) + char_cols(c),
    decreases s.len(),
{
    let t = s.push(c);
    assert(t.len() == s.len() + 1);
    assert(plain_width(t) == char_cols(t[0]) + plain_width(t.skip(1)));
    if s.len() == 0 {
        assert(t[0] == c);
        assert(t.skip(1) =~= Seq::<char>::empty());
        assert(plain_width(t.skip(1)) == 0);
    } else {
        assert(t[0] == s[0]);
        assert(t.skip(1) =~= s.skip(1).push(c));
        lemma_plain_width_snoc(s.skip(1), c);
    }
}

/// Display width adds over concatenation of plain runs.
pub proof fn lemma_plain_width_concat(a: Seq<char>, b: Seq<char>)
    ensures
        plain_width(a + b) == plain_width(a) + plain_width(b),
    decreases a.len(),
{
    if a.len() == 0 {
        assert(a + b =~= b);
    } else {
        assert((a + b)[0] == a[0]);
        assert((a + b).skip(1) =~= a.skip(1) + b);
        lemma_plain_width_concat(a.skip(1), b);
    }
}

/// Total display width of a run of scalar values.
pub fn chars_width(v: &Vec<char>) -> (w: usize)
    requires
        v@.len() * 3 <= usize::MAX,
    ensures
        w == plain_width(v@),
        w <= v@.len() * 3,
{
    let mut w: usize = 0;
    let n = v.len();
    let mut i: usize = 0;
    while i < n
        invariant
            n == v@.len(),
            i <= n,
            n * 3 <= usize::MAX,
            w == plain_width(v@.take(i as int)),
            w <= i * 3,
        decreases n - i,
    {
        let cw = char_width(v[i]);
        proof {
            assert(v@.take(i + 1 as int) =~= v@.take(i as int).push(v@[i as int]));
            lemma_plain_width_snoc(v@.take(i as int), v@[i as int]);
        }
        w = w + cw;
        i = i + 1;
    }
    proof {
        assert(v@.take(n as int) =~= v@);
    }
    w
}

/// Display width of a plain (unstyled) string: the sum over its scalar
/// values of each one's column count.
pub fn display_width(s: &str) -> (w: usize)
    requires
        s@.len() * 3 <= usize::MAX,
    ensures
        w == plain_width(s@),
        w <= s@.len() * 3,
{
    let v = str_to_chars(s);
    chars_width(&v)
}

} // verus!
