//! Conversions between strings and runs of Unicode scalar values.

use vstd::prelude::*;
use vstd::string::StrSliceExecFns;
use vstd::string::StringExecFns;

verus! {

/// Relies on `String::push`: appends exactly the given scalar value.
#[verifier::external_body]
pub(crate) fn push_char(s: &mut String, c: char)
    ensures
        final(s)@ == old(s)@.push(c),
{
    s.push(c)
}

/// The scalar values of a string, in order.
pub fn str_to_chars(s: &str) -> (v: Vec<char>)
    ensures
        v@ == s@,
{
    let n = s.unicode_len();
    let mut v: Vec<char> = Vec::new();
    let mut i: usize = 0;
    while i < n
        invariant
            n == s@.len(),
            i <= n,
            v@ == s@.take(i as int),
        decreases n - i,
    {
        let c = s.get_char(i);
        v.push(c);
        proof {
            assert(v@ =~= s@.take(i + 1 as int));
        }
        i = i + 1;
    }
    proof {
        assert(s@.take(n as int) =~= s@);
    }
    v
}

/// The string holding exactly the given scalar values, in order.
pub fn chars_to_string(v: &Vec<char>) -> (s: String)
    ensures
        s@ == v@,
{
    let mut s = String::new();
    let n = v.len();
    let mut i: usize = 0;
    while i < n
        invariant
            n == v@.len(),
            i <= n,
            s@ == v@.take(i as int),
        decreases n - i,
    {
        push_char(&mut s, v[i]);
        proof {
            assert(s@ =~= v@.take(i + 1 as int));
        }
        i = i + 1;
    }
    proof {
        assert(v@.take(n as int) =~= v@);
    }
    s
}

/// Appends every scalar value of `src` to `dst`.
pub fn append_chars(dst: &mut Vec<char>, src: &Vec<char>)
    ensures
        final(dst)@ == old(dst)@ + src@,
{
    let n = src.len();
    let mut i: usize = 0;
    while i < n
        invariant
            n == src@.len(),
            i <= n,
            dst@ == old(dst)@ + src@.take(i as int),
        decreases n - i,
    {
        dst.push(src[i]);
        proof {
            assert(old(dst)@ + src@.take(i + 1 as int) =~= (old(dst)@ + src@.take(
                i as int,
            )).push(src@[i as int]));
        }
        i = i + 1;
    }
    proof {
        assert(src@.take(n as int) =~= src@);
    }
}


/// Uppercases one ASCII letter; every other scalar stays as it is.
pub open spec fn upper_char(c: char) -> char {
    if 'a' <= c && c <= 'z' {
        ((c as u32) - 32) as char
    } else {
        c
    }
}

/// The sequence with every ASCII letter uppercased.
pub open spec fn upper_seq(s: Seq<char>) -> Seq<char> {
    Seq::new(s.len(), |i: int| upper_char(s[i]))
}

/// Uppercasing never introduces the escape scalar.
pub proof fn lemma_upper_no_esc(s: Seq<char>)
    requires
        crate::ansi::no_esc(s),
    ensures
        crate::ansi::no_esc(upper_seq(s)),
{
    assert forall|i: int| 0 <= i < upper_seq(s).len() implies upper_seq(s)[i]
        != crate::ansi::esc() by {
        assert(s[i] != crate::ansi::esc());
        if 'a' <= s[i] && s[i] <= 'z' {
            vstd::utf8::char_is_scalar(s[i]);
            vstd::utf8::char_u32_cast(s[i], s[i] as u32);
        }
    }
}

/// Uppercases one ASCII letter, executably.
pub fn upper_char_exec(c: char) -> (r: char)
    ensures
        r == upper_char(c),
{
    proof {
        assert(('A' as u32) == 0x41);
        assert(('B' as u32) == 0x42);
        assert(('C' as u32) == 0x43);
        assert(('D' as u32) == 0x44);
        assert(('E' as u32) == 0x45);
        assert(('F' as u32) == 0x46);
        assert(('G' as u32) == 0x47);
        assert(('H' as u32) == 0x48);
        assert(('I' as u32) == 0x49);
        assert(('J' as u32) == 0x4a);
        assert(('K' as u32) == 0x4b);
        assert(('L' as u32) == 0x4c);
        assert(('M' as u32) == 0x4d);
        assert(('N' as u32) == 0x4e);
        assert(('O' as u32) == 0x4f);
        assert(('P' as u32) == 0x50);
        assert(('Q' as u32) == 0x51);
        assert(('R' as u32) == 0x52);
        assert(('S' as u32) == 0x53);
        assert(('T' as u32) == 0x54);
        assert(('U' as u32) == 0x55);
        assert(('V' as u32) == 0x56);
        assert(('W' as u32) == 0x57);
        assert(('X' as u32) == 0x58);
        assert(('Y' as u32) == 0x59);
        assert(('Z' as u32) == 0x5a);
        broadcast use vstd::utf8::char_u32_cast;

    }
    match c {
        'a' => 'A',
        'b' => 'B',
        'c' => 'C',
        'd' => 'D',
        'e' => 'E',
        'f' => 'F',
        'g' => 'G',
        'h' => 'H',
        'i' => 'I',
        'j' => 'J',
        'k' => 'K',
        'l' => 'L',
        'm' => 'M',
        'n' => 'N',
        'o' => 'O',
        'p' => 'P',
        'q' => 'Q',
        'r' => 'R',
        's' => 'S',
        't' => 'T',
        'u' => 'U',
        'v' => 'V',
        'w' => 'W',
        'x' => 'X',
        'y' => 'Y',
        'z' => 'Z',
        _ => c,
    }
}

/// Uppercases every ASCII letter of a run of scalars.
pub fn upper_chars(v: &Vec<char>) -> (r: Vec<char>)
    ensures
        r@ == upper_seq(v@),
{
    let n = v.len();
    let mut r: Vec<char> = Vec::new();
    let mut i: usize = 0;
    while i < n
        invariant
            n == v@.len(),
            i <= n,
            r@ == upper_seq(v@).take(i as int),
        decreases n - i,
    {
        let c = upper_char_exec(v[i]);
        r.push(c);
        proof {
            assert(r@ =~= upper_seq(v@).take(i + 1 as int));
        }
        i = i + 1;
    }
    proof {
        assert(upper_seq(v@).take(n as int) =~= upper_seq(v@));
    }
    r
}

} // verus!
