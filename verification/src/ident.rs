//! Validity of task identifiers.
//!
//! A task name bound by a `fn:` marker must be a syntactically valid
//! identifier: ASCII letters, digits and underscores, not starting with a
//! digit.

use vstd::prelude::*;

use crate::bytes_util::{DIGIT_0, DIGIT_9, LOWER_A, LOWER_Z, UPPER_A, UPPER_Z, UNDERSCORE};

verus! {

/// A byte that may appear in an identifier: an ASCII letter, digit or `_`.
pub open spec fn spec_ident_byte(b: u8) -> bool {
    (LOWER_A <= b && b <= LOWER_Z) || (UPPER_A <= b && b <= UPPER_Z) || (DIGIT_0 <= b && b <= DIGIT_9) || b == UNDERSCORE
}

/// An ASCII digit.
pub open spec fn spec_digit_byte(b: u8) -> bool {
    DIGIT_0 <= b && b <= DIGIT_9
}

/// A valid identifier: nonempty, made of identifier bytes, and not starting
/// with a digit.
pub open spec fn spec_valid_ident(s: Seq<u8>) -> bool {
    &&& s.len() > 0
    &&& !spec_digit_byte(s[0])
    &&& forall|i: int| 0 <= i < s.len() ==> spec_ident_byte(#[trigger] s[i])
}

/// Whether every byte of `s` in `[from, s.len())` is an identifier byte.
pub open spec fn spec_ident_bytes_from(s: Seq<u8>, from: int) -> bool
    decreases s.len() - from,
{
    if from >= s.len() {
        true
    } else {
        spec_ident_byte(s[from]) && spec_ident_bytes_from(s, from + 1)
    }
}

proof fn lemma_ident_bytes_from(s: Seq<u8>, from: int)
    requires
        0 <= from <= s.len(),
    ensures
        spec_ident_bytes_from(s, from) <==> (forall|i: int|
            from <= i < s.len() ==> spec_ident_byte(#[trigger] s[i])),
    decreases s.len() - from,
{
    if from < s.len() {
        lemma_ident_bytes_from(s, from + 1);
    }
}

fn is_ident_byte(b: u8) -> (r: bool)
    ensures
        r == spec_ident_byte(b),
{
    (LOWER_A <= b && b <= LOWER_Z) || (UPPER_A <= b && b <= UPPER_Z) || (DIGIT_0 <= b && b <= DIGIT_9) || b == UNDERSCORE
}

fn ident_bytes_from(s: &Vec<u8>, from: usize) -> (r: bool)
    requires
        from <= s@.len(),
    ensures
        r == spec_ident_bytes_from(s@, from as int),
    decreases s@.len() - from,
{
    if from >= s.len() {
        true
    } else {
        is_ident_byte(s[from]) && ident_bytes_from(s, from + 1)
    }
}

/// Decides whether `s` is a valid task identifier: nonempty, only ASCII
/// letters, digits and underscores, and not starting with a digit.
pub fn is_valid_identifier(s: &Vec<u8>) -> (r: bool)
    ensures
        r == spec_valid_ident(s@),
{
    if s.len() == 0 {
        return false;
    }
    let first = s[0];
    if DIGIT_0 <= first && first <= DIGIT_9 {
        return false;
    }
    let all = ident_bytes_from(s, 0);
    proof {
        lemma_ident_bytes_from(s@, 0);
    }
    all
}

} // verus!
