//! Byte constants and small verified helpers shared by the scanner.

use vstd::prelude::*;

verus! {

/// `<`
pub const LT: u8 = 60;

/// `>`
pub const GT: u8 = 62;

/// `/`
pub const SLASH: u8 = 47;

/// `!`
pub const BANG: u8 = 33;

/// `?`
pub const QUESTION: u8 = 63;

/// `"`
pub const DQUOTE: u8 = 34;

/// `'`
pub const SQUOTE: u8 = 39;

/// `=`
pub const EQUALS: u8 = 61;

/// `-`
pub const DASH: u8 = 45;

/// `:`
pub const COLON: u8 = 58;

/// Space
pub const SP: u8 = 32;

/// Horizontal tab
pub const TAB: u8 = 9;

/// Line feed
pub const LF: u8 = 10;

/// Carriage return
pub const CR: u8 = 13;

/// Form feed
pub const FF: u8 = 12;

/// `_`
pub const UNDERSCORE: u8 = 95;

/// `0`
pub const DIGIT_0: u8 = 48;

/// `9`
pub const DIGIT_9: u8 = 57;

/// `a`
pub const LOWER_A: u8 = 97;

/// `z`
pub const LOWER_Z: u8 = 122;

/// `A`
pub const UPPER_A: u8 = 65;

/// `Z`
pub const UPPER_Z: u8 = 90;

/// An HTML whitespace byte.
pub open spec fn spec_ws(b: u8) -> bool {
    b == SP || b == TAB || b == LF || b == CR || b == FF
}

/// An ASCII letter.
pub open spec fn spec_letter(b: u8) -> bool {
    (LOWER_A <= b && b <= LOWER_Z) || (UPPER_A <= b && b <= UPPER_Z)
}

/// ASCII lower-casing of a single byte.
pub open spec fn spec_lower(b: u8) -> u8 {
    if UPPER_A <= b && b <= UPPER_Z {
        (b + 32) as u8
    } else {
        b
    }
}

pub fn is_ws(b: u8) -> (r: bool)
    ensures
        r == spec_ws(b),
{
    b == SP || b == TAB || b == LF || b == CR || b == FF
}

pub fn is_letter(b: u8) -> (r: bool)
    ensures
        r == spec_letter(b),
{
    (LOWER_A <= b && b <= LOWER_Z) || (UPPER_A <= b && b <= UPPER_Z)
}

pub fn to_lower(b: u8) -> (r: u8)
    ensures
        r == spec_lower(b),
{
    if UPPER_A <= b && b <= UPPER_Z {
        b + 32
    } else {
        b
    }
}

/// The bytes of `s` in `[a, b)`, each lower-cased.
pub open spec fn spec_lower_range(s: Seq<u8>, a: int, b: int) -> Seq<u8> {
    s.subrange(a, b).map_values(|x: u8| spec_lower(x))
}

/// Copies `s[a..b]` onto the end of `out`, lower-casing each byte.
pub fn push_lower_range(out: &mut Vec<u8>, s: &Vec<u8>, a: usize, b: usize)
    requires
        a <= b <= s@.len(),
    ensures
        final(out)@ == old(out)@ + spec_lower_range(s@, a as int, b as int),
    decreases b - a,
{
    if a == b {
        proof {
            assert(out@ =~= out@ + spec_lower_range(s@, a as int, b as int));
        }
    } else {
        let lo = to_lower(s[a]);
        out.push(lo);
        push_lower_range(out, s, a + 1, b);
        proof {
            assert(out@ =~= old(out)@ + spec_lower_range(s@, a as int, b as int));
        }
    }
}

/// Copies `s[a..b]` onto the end of `out`.
pub fn push_range(out: &mut Vec<u8>, s: &Vec<u8>, a: usize, b: usize)
    requires
        a <= b <= s@.len(),
    ensures
        final(out)@ == old(out)@ + s@.subrange(a as int, b as int),
    decreases b - a,
{
    if a == b {
        proof {
            assert(out@ =~= out@ + s@.subrange(a as int, b as int));
        }
    } else {
        out.push(s[a]);
        push_range(out, s, a + 1, b);
        proof {
            assert(out@ =~= old(out)@ + s@.subrange(a as int, b as int));
        }
    }
}

/// Copies all of `s` onto the end of `out`.
pub fn push_all(out: &mut Vec<u8>, s: &Vec<u8>)
    ensures
        final(out)@ == old(out)@ + s@,
{
    push_range(out, s, 0, s.len());
    proof {
        assert(out@ =~= old(out)@ + s@);
    }
}

/// Whether `s[a..b]` equals `pat`.
pub open spec fn spec_range_eq(s: Seq<u8>, a: int, b: int, pat: Seq<u8>) -> bool {
    s.subrange(a, b) == pat
}

/// Decides whether `s[a..b]` equals `pat`.
pub fn range_eq(s: &Vec<u8>, a: usize, b: usize, pat: &Vec<u8>) -> (r: bool)
    requires
        a <= b <= s@.len(),
    ensures
        r == spec_range_eq(s@, a as int, b as int, pat@),
{
    if b - a != pat.len() {
        proof {
            assert(s@.subrange(a as int, b as int).len() == b - a);
        }
        return false;
    }
    let mut i: usize = 0;
    while i < pat.len()
        invariant
            a <= b <= s@.len(),
            b - a == pat@.len(),
            0 <= i <= pat@.len(),
            forall|j: int| 0 <= j < i ==> s@[a + j] == pat@[j],
        decreases pat@.len() - i,
    {
        if s[a + i] != pat[i] {
            proof {
                assert(s@.subrange(a as int, b as int)[i as int] == s@[a + i]);
            }
            return false;
        }
        i += 1;
    }
    proof {
        assert(s@.subrange(a as int, b as int) =~= pat@);
    }
    true
}

/// Whether the lower-cased bytes of `s[a..b]` equal `pat` (which is expected
/// to be lower case already).
pub open spec fn spec_range_eq_lower(s: Seq<u8>, a: int, b: int, pat: Seq<u8>) -> bool {
    spec_lower_range(s, a, b) == pat
}

/// Decides whether `s[a..b]`, lower-cased, equals `pat`.
pub fn range_eq_lower(s: &Vec<u8>, a: usize, b: usize, pat: &Vec<u8>) -> (r: bool)
    requires
        a <= b <= s@.len(),
    ensures
        r == spec_range_eq_lower(s@, a as int, b as int, pat@),
{
    if b - a != pat.len() {
        proof {
            assert(spec_lower_range(s@, a as int, b as int).len() == b - a);
        }
        return false;
    }
    let mut i: usize = 0;
    while i < pat.len()
        invariant
            a <= b <= s@.len(),
            b - a == pat@.len(),
            0 <= i <= pat@.len(),
            forall|j: int| 0 <= j < i ==> spec_lower(s@[a + j]) == pat@[j],
        decreases pat@.len() - i,
    {
        if to_lower(s[a + i]) != pat[i] {
            proof {
                assert(spec_lower_range(s@, a as int, b as int)[i as int] == spec_lower(
                    s@[a + i],
                ));
            }
            return false;
        }
        i += 1;
    }
    proof {
        assert(spec_lower_range(s@, a as int, b as int) =~= pat@);
    }
    true
}

/// Whether two byte vectors hold the same bytes.
pub fn bytes_eq(a: &Vec<u8>, b: &Vec<u8>) -> (r: bool)
    ensures
        r == (a@ == b@),
{
    if a.len() != b.len() {
        return false;
    }
    let mut i: usize = 0;
    while i < a.len()
        invariant
            a@.len() == b@.len(),
            0 <= i <= a@.len(),
            forall|j: int| 0 <= j < i ==> a@[j] == b@[j],
        decreases a@.len() - i,
    {
        if a[i] != b[i] {
            return false;
        }
        i += 1;
    }
    proof {
        assert(a@ =~= b@);
    }
    true
}

/// The last index `e` with `a <= e <= b` such that `s[a..e]` has no trailing
/// whitespace; used to trim marker values.
pub open spec fn spec_trim_end(s: Seq<u8>, a: int, b: int) -> int
    decreases b - a,
{
    if b <= a {
        a
    } else if spec_ws(s[b - 1]) {
        spec_trim_end(s, a, b - 1)
    } else {
        b
    }
}

/// Trims trailing whitespace: returns the end of `s[a..b]` without it.
pub fn trim_end(s: &Vec<u8>, a: usize, b: usize) -> (r: usize)
    requires
        a <= b <= s@.len(),
    ensures
        r == spec_trim_end(s@, a as int, b as int),
        a <= r <= b,
    decreases b - a,
{
    if b <= a {
        a
    } else if is_ws(s[b - 1]) {
        trim_end(s, a, b - 1)
    } else {
        b
    }
}

} // verus!
