//! A small HTML tag scanner.
//!
//! The template builder does not construct a DOM; it walks the byte stream
//! of a template once, recognising open tags, close tags, comments and
//! markup declarations, and reading at most one attribute (`data-htms`) per
//! open tag. Tag and attribute names are matched case-insensitively; the
//! extent of a tag respects quoted attribute values.

use vstd::prelude::*;

use crate::bytes_util::{
    spec_ws, spec_letter, is_ws, is_letter, spec_lower_range, range_eq_lower, DQUOTE, SQUOTE,
    EQUALS, GT, LT, SLASH, DASH, BANG, QUESTION,
};

verus! {

/// The lower-cased bytes of `data-htms`, the marker attribute's name.
pub open spec fn spec_data_htms() -> Seq<u8> {
    seq![100u8, 97u8, 116u8, 97u8, 45u8, 104u8, 116u8, 109u8, 115u8]
}

/// Builds the `data-htms` pattern.
pub fn data_htms_pat() -> (r: Vec<u8>)
    ensures
        r@ == spec_data_htms(),
{
    let mut v: Vec<u8> = Vec::new();
    v.push(100);
    v.push(97);
    v.push(116);
    v.push(97);
    v.push(45);
    v.push(104);
    v.push(116);
    v.push(109);
    v.push(115);
    proof {
        assert(v@ =~= spec_data_htms());
    }
    v
}

/// The index of the first occurrence of `b` in `s` at or after `i`, or
/// `s.len()` if there is none.
pub open spec fn spec_find_byte(s: Seq<u8>, i: int, b: u8) -> int
    decreases s.len() - i,
{
    if i >= s.len() {
        s.len() as int
    } else if s[i] == b {
        i
    } else {
        spec_find_byte(s, i + 1, b)
    }
}

pub proof fn lemma_find_byte_bounds(s: Seq<u8>, i: int, b: u8)
    requires
        0 <= i <= s.len(),
    ensures
        i <= spec_find_byte(s, i, b) <= s.len(),
    decreases s.len() - i,
{
    if i < s.len() && s[i] != b {
        lemma_find_byte_bounds(s, i + 1, b);
    }
}

pub fn find_byte(s: &Vec<u8>, i: usize, b: u8) -> (r: usize)
    requires
        i <= s@.len(),
    ensures
        r == spec_find_byte(s@, i as int, b),
        i <= r <= s@.len(),
    decreases s@.len() - i,
{
    if i >= s.len() {
        s.len()
    } else if s[i] == b {
        i
    } else {
        find_byte(s, i + 1, b)
    }
}

/// The index of the first non-whitespace byte at or after `i`, or `s.len()`.
pub open spec fn spec_skip_ws(s: Seq<u8>, i: int) -> int
    decreases s.len() - i,
{
    if i >= s.len() {
        s.len() as int
    } else if spec_ws(s[i]) {
        spec_skip_ws(s, i + 1)
    } else {
        i
    }
}

pub proof fn lemma_skip_ws_bounds(s: Seq<u8>, i: int)
    requires
        0 <= i <= s.len(),
    ensures
        i <= spec_skip_ws(s, i) <= s.len(),
    decreases s.len() - i,
{
    if i < s.len() && spec_ws(s[i]) {
        lemma_skip_ws_bounds(s, i + 1);
    }
}

pub fn skip_ws(s: &Vec<u8>, i: usize) -> (r: usize)
    requires
        i <= s@.len(),
    ensures
        r == spec_skip_ws(s@, i as int),
        i <= r <= s@.len(),
    decreases s@.len() - i,
{
    if i >= s.len() {
        s.len()
    } else if is_ws(s[i]) {
        skip_ws(s, i + 1)
    } else {
        i
    }
}

/// Whether `b` ends a tag name: whitespace, `/` or `>`.
pub open spec fn spec_name_stop(b: u8) -> bool {
    spec_ws(b) || b == SLASH || b == GT
}

/// Whether `b` ends an attribute name: whitespace, `=`, `/` or `>`.
pub open spec fn spec_attr_name_stop(b: u8) -> bool {
    spec_ws(b) || b == EQUALS || b == SLASH || b == GT
}

/// Whether `b` ends an unquoted attribute value: whitespace or `>`.
pub open spec fn spec_unquoted_stop(b: u8) -> bool {
    spec_ws(b) || b == GT
}

/// The index of the first byte at or after `i` that ends a tag name.
pub open spec fn spec_name_end(s: Seq<u8>, i: int) -> int
    decreases s.len() - i,
{
    if i >= s.len() {
        s.len() as int
    } else if spec_name_stop(s[i]) {
        i
    } else {
        spec_name_end(s, i + 1)
    }
}

pub proof fn lemma_name_end_bounds(s: Seq<u8>, i: int)
    requires
        0 <= i <= s.len(),
    ensures
        i <= spec_name_end(s, i) <= s.len(),
    decreases s.len() - i,
{
    if i < s.len() && !spec_name_stop(s[i]) {
        lemma_name_end_bounds(s, i + 1);
    }
}

pub fn name_end(s: &Vec<u8>, i: usize) -> (r: usize)
    requires
        i <= s@.len(),
    ensures
        r == spec_name_end(s@, i as int),
        i <= r <= s@.len(),
    decreases s@.len() - i,
{
    if i >= s.len() {
        s.len()
    } else if is_ws(s[i]) || s[i] == SLASH || s[i] == GT {
        i
    } else {
        name_end(s, i + 1)
    }
}

/// The index of the first byte at or after `i` that ends an attribute name.
pub open spec fn spec_attr_name_end(s: Seq<u8>, i: int) -> int
    decreases s.len() - i,
{
    if i >= s.len() {
        s.len() as int
    } else if spec_attr_name_stop(s[i]) {
        i
    } else {
        spec_attr_name_end(s, i + 1)
    }
}

pub proof fn lemma_attr_name_end_bounds(s: Seq<u8>, i: int)
    requires
        0 <= i <= s.len(),
    ensures
        i <= spec_attr_name_end(s, i) <= s.len(),
    decreases s.len() - i,
{
    if i < s.len() && !spec_attr_name_stop(s[i]) {
        lemma_attr_name_end_bounds(s, i + 1);
    }
}

pub fn attr_name_end(s: &Vec<u8>, i: usize) -> (r: usize)
    requires
        i <= s@.len(),
    ensures
        r == spec_attr_name_end(s@, i as int),
        i <= r <= s@.len(),
    decreases s@.len() - i,
{
    if i >= s.len() {
        s.len()
    } else if is_ws(s[i]) || s[i] == EQUALS || s[i] == SLASH || s[i] == GT {
        i
    } else {
        attr_name_end(s, i + 1)
    }
}

/// The index of the first byte at or after `i` that ends an unquoted value.
pub open spec fn spec_unquoted_end(s: Seq<u8>, i: int) -> int
    decreases s.len() - i,
{
    if i >= s.len() {
        s.len() as int
    } else if spec_unquoted_stop(s[i]) {
        i
    } else {
        spec_unquoted_end(s, i + 1)
    }
}

pub proof fn lemma_unquoted_end_bounds(s: Seq<u8>, i: int)
    requires
        0 <= i <= s.len(),
    ensures
        i <= spec_unquoted_end(s, i) <= s.len(),
    decreases s.len() - i,
{
    if i < s.len() && !spec_unquoted_stop(s[i]) {
        lemma_unquoted_end_bounds(s, i + 1);
    }
}

pub fn unquoted_end(s: &Vec<u8>, i: usize) -> (r: usize)
    requires
        i <= s@.len(),
    ensures
        r == spec_unquoted_end(s@, i as int),
        i <= r <= s@.len(),
    decreases s@.len() - i,
{
    if i >= s.len() {
        s.len()
    } else if is_ws(s[i]) || s[i] == GT {
        i
    } else {
        unquoted_end(s, i + 1)
    }
}

/// The index just after the terminating `-->` of a comment whose scan starts
/// at `i`, or `s.len()` if the comment never ends.
pub open spec fn spec_comment_end(s: Seq<u8>, i: int) -> int
    decreases s.len() - i,
{
    if i + 3 > s.len() {
        s.len() as int
    } else if s[i] == DASH && s[i + 1] == DASH && s[i + 2] == GT {
        i + 3
    } else {
        spec_comment_end(s, i + 1)
    }
}

pub proof fn lemma_comment_end_bounds(s: Seq<u8>, i: int)
    requires
        0 <= i <= s.len(),
    ensures
        i <= spec_comment_end(s, i) <= s.len(),
    decreases s.len() - i,
{
    if i + 3 <= s.len() && !(s[i] == DASH && s[i + 1] == DASH && s[i + 2] == GT) {
        lemma_comment_end_bounds(s, i + 1);
    }
}

pub fn comment_end(s: &Vec<u8>, i: usize) -> (r: usize)
    requires
        i <= s@.len(),
    ensures
        r == spec_comment_end(s@, i as int),
        i <= r <= s@.len(),
    decreases s@.len() - i,
{
    if i >= s.len() || s.len() - i < 3 {
        s.len()
    } else if s[i] == DASH && s[i + 1] == DASH && s[i + 2] == GT {
        i + 3
    } else {
        comment_end(s, i + 1)
    }
}


/// Result of scanning an open tag's attribute list.
pub ghost struct SpecAttrs {
    /// Index just after the tag's closing `>`, or `s.len()` if unterminated.
    pub end: int,
    /// Whether the tag ends in `/>`.
    pub self_closing: bool,
    /// Range of the first `data-htms` attribute value, if any.
    pub dh: Option<(int, int)>,
}

/// Records the first `data-htms` value range found.
pub open spec fn spec_dh_upd(
    dh: Option<(int, int)>,
    s: Seq<u8>,
    an_start: int,
    an_end: int,
    a: int,
    b: int,
) -> Option<(int, int)> {
    if dh is None && spec_lower_range(s, an_start, an_end) == spec_data_htms() {
        Some((a, b))
    } else {
        dh
    }
}

/// Scans an attribute list from `i` (just after the tag name) to the closing
/// `>`: tracks quoting, `/>`, and the value range of the first `data-htms`
/// attribute.
pub open spec fn spec_scan_attrs(s: Seq<u8>, i: int, dh: Option<(int, int)>) -> SpecAttrs
    decreases s.len() - i,
    via spec_scan_attrs_decreases
{
    if i < 0 || i >= s.len() {
        SpecAttrs { end: s.len() as int, self_closing: false, dh }
    } else if spec_ws(s[i]) {
        spec_scan_attrs(s, i + 1, dh)
    } else if s[i] == GT {
        SpecAttrs { end: i + 1, self_closing: false, dh }
    } else if s[i] == SLASH {
        if i + 1 < s.len() && s[i + 1] == GT {
            SpecAttrs { end: i + 2, self_closing: true, dh }
        } else {
            spec_scan_attrs(s, i + 1, dh)
        }
    } else {
        let an = spec_attr_name_end(s, i);
        let j = spec_skip_ws(s, an);
        if j < s.len() && s[j] == EQUALS {
            let k = spec_skip_ws(s, j + 1);
            if k < s.len() && (s[k] == DQUOTE || s[k] == SQUOTE) {
                let vend = spec_find_byte(s, k + 1, s[k]);
                let next = if vend < s.len() {
                    vend + 1
                } else {
                    s.len() as int
                };
                spec_scan_attrs(s, next, spec_dh_upd(dh, s, i, an, k + 1, vend))
            } else {
                let vend = spec_unquoted_end(s, k);
                spec_scan_attrs(s, vend, spec_dh_upd(dh, s, i, an, k, vend))
            }
        } else {
            spec_scan_attrs(s, j, spec_dh_upd(dh, s, i, an, an, an))
        }
    }
}

#[via_fn]
proof fn spec_scan_attrs_decreases(s: Seq<u8>, i: int, dh: Option<(int, int)>) {
    if 0 <= i < s.len() && !spec_ws(s[i]) && s[i] != GT && s[i] != SLASH {
        let an = spec_attr_name_end(s, i);
        if s[i] != EQUALS {
            assert(!spec_attr_name_stop(s[i]));
            lemma_attr_name_end_bounds(s, i + 1);
            assert(an == spec_attr_name_end(s, i + 1));
        }
        lemma_attr_name_end_bounds(s, i);
        lemma_skip_ws_bounds(s, an);
        let j = spec_skip_ws(s, an);
        if j < s.len() && s[j] == EQUALS {
            lemma_skip_ws_bounds(s, j + 1);
            let k = spec_skip_ws(s, j + 1);
            if k < s.len() && (s[k] == DQUOTE || s[k] == SQUOTE) {
                lemma_find_byte_bounds(s, k + 1, s[k]);
            } else {
                if k <= s.len() {
                    lemma_unquoted_end_bounds(s, k);
                }
            }
        }
    }
}

/// Well-formedness of a recorded value range relative to `[lo, hi]`.
pub open spec fn spec_dh_wf(dh: Option<(int, int)>, lo: int, hi: int) -> bool {
    dh matches Some((a, b)) ==> lo <= a && a <= b && b <= hi
}

pub proof fn lemma_scan_attrs_bounds(s: Seq<u8>, i: int, dh: Option<(int, int)>, lo: int)
    requires
        0 <= i <= s.len(),
        0 <= lo <= i,
        spec_dh_wf(dh, lo, i),
    ensures
        i <= spec_scan_attrs(s, i, dh).end <= s.len(),
        spec_dh_wf(spec_scan_attrs(s, i, dh).dh, lo, spec_scan_attrs(s, i, dh).end),
    decreases s.len() - i,
{
    if i >= s.len() {
    } else if spec_ws(s[i]) {
        lemma_scan_attrs_bounds(s, i + 1, dh, lo);
    } else if s[i] == GT {
    } else if s[i] == SLASH {
        if i + 1 < s.len() && s[i + 1] == GT {
        } else {
            lemma_scan_attrs_bounds(s, i + 1, dh, lo);
        }
    } else {
        let an = spec_attr_name_end(s, i);
        if s[i] != EQUALS {
            assert(!spec_attr_name_stop(s[i]));
            lemma_attr_name_end_bounds(s, i + 1);
            assert(an == spec_attr_name_end(s, i + 1));
        }
        lemma_attr_name_end_bounds(s, i);
        lemma_skip_ws_bounds(s, an);
        let j = spec_skip_ws(s, an);
        if j < s.len() && s[j] == EQUALS {
            lemma_skip_ws_bounds(s, j + 1);
            let k = spec_skip_ws(s, j + 1);
            if k < s.len() && (s[k] == DQUOTE || s[k] == SQUOTE) {
                lemma_find_byte_bounds(s, k + 1, s[k]);
                let vend = spec_find_byte(s, k + 1, s[k]);
                let next = if vend < s.len() {
                    vend + 1
                } else {
                    s.len() as int
                };
                lemma_scan_attrs_bounds(s, next, spec_dh_upd(dh, s, i, an, k + 1, vend), lo);
            } else {
                lemma_unquoted_end_bounds(s, k);
                let vend = spec_unquoted_end(s, k);
                lemma_scan_attrs_bounds(s, vend, spec_dh_upd(dh, s, i, an, k, vend), lo);
            }
        } else {
            lemma_scan_attrs_bounds(s, j, spec_dh_upd(dh, s, i, an, an, an), lo);
        }
    }
}

/// Exec form of a scanned attribute list.
pub struct Attrs {
    pub end: usize,
    pub self_closing: bool,
    pub has_dh: bool,
    pub dh_start: usize,
    pub dh_end: usize,
}

/// The option that an exec `(has_dh, dh_start, dh_end)` triple stands for.
pub open spec fn spec_dh_opt(has_dh: bool, a: usize, b: usize) -> Option<(int, int)> {
    if has_dh {
        Some((a as int, b as int))
    } else {
        None
    }
}

/// Whether an exec attribute scan agrees with a spec one.
pub open spec fn spec_attrs_rel(t: Attrs, g: SpecAttrs) -> bool {
    &&& t.end == g.end
    &&& t.self_closing == g.self_closing
    &&& spec_dh_opt(t.has_dh, t.dh_start, t.dh_end) == g.dh
}

/// Scans an attribute list; mirrors `spec_scan_attrs`.
pub fn scan_attrs(
    s: &Vec<u8>,
    i: usize,
    has_dh: bool,
    dh_start: usize,
    dh_end: usize,
    pat: &Vec<u8>,
) -> (r: Attrs)
    requires
        i <= s@.len(),
        pat@ == spec_data_htms(),
        spec_dh_wf(spec_dh_opt(has_dh, dh_start, dh_end), 0, i as int),
    ensures
        spec_attrs_rel(r, spec_scan_attrs(s@, i as int, spec_dh_opt(has_dh, dh_start, dh_end))),
        i <= r.end <= s@.len(),
        r.has_dh ==> r.dh_start <= r.dh_end <= r.end,
    decreases s@.len() - i,
{
    proof {
        lemma_scan_attrs_bounds(s@, i as int, spec_dh_opt(has_dh, dh_start, dh_end), 0);
    }
    if i >= s.len() {
        Attrs { end: s.len(), self_closing: false, has_dh, dh_start, dh_end }
    } else if is_ws(s[i]) {
        scan_attrs(s, i + 1, has_dh, dh_start, dh_end, pat)
    } else if s[i] == GT {
        Attrs { end: i + 1, self_closing: false, has_dh, dh_start, dh_end }
    } else if s[i] == SLASH {
        if i + 1 < s.len() && s[i + 1] == GT {
            Attrs { end: i + 2, self_closing: true, has_dh, dh_start, dh_end }
        } else {
            scan_attrs(s, i + 1, has_dh, dh_start, dh_end, pat)
        }
    } else {
        proof {
            if s@[i as int] != EQUALS {
                assert(!spec_attr_name_stop(s@[i as int]));
                lemma_attr_name_end_bounds(s@, i as int + 1);
                assert(spec_attr_name_end(s@, i as int) == spec_attr_name_end(s@, i as int + 1));
            }
        }
        let an = attr_name_end(s, i);
        let j = skip_ws(s, an);
        let is_dh = !has_dh && range_eq_lower(s, i, an, pat);
        if j < s.len() && s[j] == EQUALS {
            let k = skip_ws(s, j + 1);
            if k < s.len() && (s[k] == DQUOTE || s[k] == SQUOTE) {
                let vend = find_byte(s, k + 1, s[k]);
                let next = if vend < s.len() {
                    vend + 1
                } else {
                    s.len()
                };
                if is_dh {
                    scan_attrs(s, next, true, k + 1, vend, pat)
                } else {
                    scan_attrs(s, next, has_dh, dh_start, dh_end, pat)
                }
            } else {
                let vend = unquoted_end(s, k);
                if is_dh {
                    scan_attrs(s, vend, true, k, vend, pat)
                } else {
                    scan_attrs(s, vend, has_dh, dh_start, dh_end, pat)
                }
            }
        } else {
            if is_dh {
                scan_attrs(s, j, true, an, an, pat)
            } else {
                scan_attrs(s, j, has_dh, dh_start, dh_end, pat)
            }
        }
    }
}


/// A parsed open tag.
pub ghost struct SpecOpen {
    pub name_start: int,
    pub name_end: int,
    pub end: int,
    pub self_closing: bool,
    pub dh: Option<(int, int)>,
}

/// Parses the open tag starting at `pos` (so `s[pos] == '<'` and the next
/// byte is a letter).
pub open spec fn spec_parse_open(s: Seq<u8>, pos: int) -> SpecOpen {
    let ns = pos + 1;
    let ne = spec_name_end(s, ns);
    let at = spec_scan_attrs(s, ne, None);
    SpecOpen {
        name_start: ns,
        name_end: ne,
        end: at.end,
        self_closing: at.self_closing,
        dh: at.dh,
    }
}

pub proof fn lemma_parse_open_bounds(s: Seq<u8>, pos: int)
    requires
        0 <= pos,
        pos + 1 <= s.len(),
    ensures
        pos + 1 <= spec_parse_open(s, pos).name_start <= spec_parse_open(s, pos).name_end,
        spec_parse_open(s, pos).name_end <= spec_parse_open(s, pos).end <= s.len(),
        pos < spec_parse_open(s, pos).end,
        spec_dh_wf(spec_parse_open(s, pos).dh, pos + 1, spec_parse_open(s, pos).end),
{
    lemma_name_end_bounds(s, pos + 1);
    let ne = spec_name_end(s, pos + 1);
    lemma_scan_attrs_bounds(s, ne, None, pos + 1);
}

/// Exec form of a parsed open tag.
pub struct OpenTag {
    pub name_start: usize,
    pub name_end: usize,
    pub end: usize,
    pub self_closing: bool,
    pub has_dh: bool,
    pub dh_start: usize,
    pub dh_end: usize,
}

/// Whether an exec parsed open tag agrees with a spec one.
pub open spec fn spec_open_rel(t: OpenTag, g: SpecOpen) -> bool {
    &&& t.name_start == g.name_start
    &&& t.name_end == g.name_end
    &&& t.end == g.end
    &&& t.self_closing == g.self_closing
    &&& spec_dh_opt(t.has_dh, t.dh_start, t.dh_end) == g.dh
}

/// Parses the open tag starting at `pos`; mirrors `spec_parse_open`.
pub fn parse_open(s: &Vec<u8>, pos: usize, pat: &Vec<u8>) -> (t: OpenTag)
    requires
        pos + 1 <= s@.len(),
        pat@ == spec_data_htms(),
    ensures
        spec_open_rel(t, spec_parse_open(s@, pos as int)),
        pos + 1 <= t.name_start <= t.name_end <= t.end <= s@.len(),
        t.has_dh ==> t.name_start <= t.dh_start <= t.dh_end <= t.end,
{
    let n = s.len();
    proof {
        assert(pos + 1 <= n);
    }
    let ns = pos + 1;
    let ne = name_end(s, ns);
    proof {
        lemma_scan_attrs_bounds(s@, ne as int, None, ns as int);
    }
    let at = scan_attrs(s, ne, false, 0, 0, pat);
    OpenTag {
        name_start: ns,
        name_end: ne,
        end: at.end,
        self_closing: at.self_closing,
        has_dh: at.has_dh,
        dh_start: at.dh_start,
        dh_end: at.dh_end,
    }
}

/// A parsed close tag.
pub ghost struct SpecClose {
    pub name_start: int,
    pub name_end: int,
    pub end: int,
}

/// Parses the close tag starting at `pos` (so `s[pos..pos+2] == "</"`).
pub open spec fn spec_parse_close(s: Seq<u8>, pos: int) -> SpecClose {
    let ns = pos + 2;
    let ne = spec_name_end(s, ns);
    let g = spec_find_byte(s, ne, GT);
    let end = if g < s.len() {
        g + 1
    } else {
        s.len() as int
    };
    SpecClose { name_start: ns, name_end: ne, end }
}

pub proof fn lemma_parse_close_bounds(s: Seq<u8>, pos: int)
    requires
        0 <= pos,
        pos + 2 <= s.len(),
    ensures
        pos + 2 <= spec_parse_close(s, pos).name_start <= spec_parse_close(s, pos).name_end,
        spec_parse_close(s, pos).name_end <= spec_parse_close(s, pos).end <= s.len(),
        pos < spec_parse_close(s, pos).end,
{
    lemma_name_end_bounds(s, pos + 2);
    let ne = spec_name_end(s, pos + 2);
    lemma_find_byte_bounds(s, ne, GT);
}

/// Exec form of a parsed close tag.
pub struct CloseTag {
    pub name_start: usize,
    pub name_end: usize,
    pub end: usize,
}

/// Whether an exec parsed close tag agrees with a spec one.
pub open spec fn spec_close_rel(t: CloseTag, g: SpecClose) -> bool {
    t.name_start == g.name_start && t.name_end == g.name_end && t.end == g.end
}

/// Parses the close tag starting at `pos`; mirrors `spec_parse_close`.
pub fn parse_close(s: &Vec<u8>, pos: usize) -> (t: CloseTag)
    requires
        pos + 2 <= s@.len(),
    ensures
        spec_close_rel(t, spec_parse_close(s@, pos as int)),
        pos + 2 <= t.name_start <= t.name_end <= t.end <= s@.len(),
{
    let n = s.len();
    proof {
        assert(pos + 2 <= n);
    }
    let ns = pos + 2;
    let ne = name_end(s, ns);
    let g = find_byte(s, ne, GT);
    let end = if g < s.len() {
        g + 1
    } else {
        s.len()
    };
    CloseTag { name_start: ns, name_end: ne, end }
}

/// Whether the bytes starting at `pos` open a comment: `<!--`.
pub open spec fn spec_is_comment(s: Seq<u8>, pos: int) -> bool {
    pos + 4 <= s.len() && s[pos + 1] == BANG && s[pos + 2] == DASH && s[pos + 3] == DASH
}

/// The index just after the markup construct at `pos`, where `s[pos] == '<'`
/// and the construct is a comment, a markup declaration (`<!...>`) or a
/// processing-instruction-like run (`<?...>`).
pub open spec fn spec_decl_end(s: Seq<u8>, pos: int) -> int {
    if spec_is_comment(s, pos) {
        spec_comment_end(s, pos + 4)
    } else {
        let g = spec_find_byte(s, pos + 1, GT);
        if g < s.len() {
            g + 1
        } else {
            s.len() as int
        }
    }
}

pub proof fn lemma_decl_end_bounds(s: Seq<u8>, pos: int)
    requires
        0 <= pos,
        pos + 1 <= s.len(),
    ensures
        pos < spec_decl_end(s, pos) <= s.len(),
{
    if spec_is_comment(s, pos) {
        lemma_comment_end_bounds(s, pos + 4);
    } else {
        lemma_find_byte_bounds(s, pos + 1, GT);
    }
}

/// Exec mirror of `spec_decl_end`.
pub fn decl_end(s: &Vec<u8>, pos: usize) -> (r: usize)
    requires
        pos + 1 <= s@.len(),
    ensures
        r == spec_decl_end(s@, pos as int),
        pos < r <= s@.len(),
{
    proof {
        lemma_decl_end_bounds(s@, pos as int);
    }
    if s.len() - pos >= 4 && s[pos + 1] == BANG && s[pos + 2] == DASH && s[pos + 3] == DASH {
        comment_end(s, pos + 4)
    } else {
        let g = find_byte(s, pos + 1, GT);
        if g < s.len() {
            g + 1
        } else {
            s.len()
        }
    }
}

/// The index just after the close tag that matches an open element whose
/// lower-cased name is `name`, scanning from `i` with `depth` same-named
/// open elements still unclosed; `s.len()` if no matching close tag exists.
pub open spec fn spec_elem_end(s: Seq<u8>, i: int, name: Seq<u8>, depth: int) -> int
    decreases s.len() - i, 0int,
    via spec_elem_end_decreases
{
    if i < 0 || i >= s.len() {
        s.len() as int
    } else {
        let p = spec_find_byte(s, i, LT);
        if p >= s.len() || p + 1 >= s.len() {
            s.len() as int
        } else if s[p + 1] == BANG || s[p + 1] == QUESTION {
            spec_elem_end(s, spec_decl_end(s, p), name, depth)
        } else if s[p + 1] == SLASH {
            let c = spec_parse_close(s, p);
            if spec_lower_range(s, c.name_start, c.name_end) == name {
                if depth <= 0 {
                    c.end
                } else {
                    spec_elem_end(s, c.end, name, depth - 1)
                }
            } else {
                spec_elem_end(s, c.end, name, depth)
            }
        } else if spec_letter(s[p + 1]) {
            let t = spec_parse_open(s, p);
            if spec_lower_range(s, t.name_start, t.name_end) == name && !t.self_closing {
                spec_elem_end(s, t.end, name, depth + 1)
            } else {
                spec_elem_end(s, t.end, name, depth)
            }
        } else {
            spec_elem_end(s, p + 1, name, depth)
        }
    }
}

#[via_fn]
proof fn spec_elem_end_decreases(s: Seq<u8>, i: int, name: Seq<u8>, depth: int) {
    if 0 <= i < s.len() {
        lemma_find_byte_bounds(s, i, LT);
        let p = spec_find_byte(s, i, LT);
        if p < s.len() && p + 1 < s.len() {
            if s[p + 1] == BANG || s[p + 1] == QUESTION {
                lemma_decl_end_bounds(s, p);
            } else if s[p + 1] == SLASH {
                lemma_parse_close_bounds(s, p);
            } else if spec_letter(s[p + 1]) {
                lemma_parse_open_bounds(s, p);
            }
        }
    }
}

pub proof fn lemma_elem_end_bounds(s: Seq<u8>, i: int, name: Seq<u8>, depth: int)
    requires
        0 <= i <= s.len(),
    ensures
        i <= spec_elem_end(s, i, name, depth) <= s.len(),
    decreases s.len() - i,
{
    if 0 <= i < s.len() {
        lemma_find_byte_bounds(s, i, LT);
        let p = spec_find_byte(s, i, LT);
        if p < s.len() && p + 1 < s.len() {
            if s[p + 1] == BANG || s[p + 1] == QUESTION {
                lemma_decl_end_bounds(s, p);
                lemma_elem_end_bounds(s, spec_decl_end(s, p), name, depth);
            } else if s[p + 1] == SLASH {
                lemma_parse_close_bounds(s, p);
                let c = spec_parse_close(s, p);
                if spec_lower_range(s, c.name_start, c.name_end) == name {
                    if depth > 0 {
                        lemma_elem_end_bounds(s, c.end, name, depth - 1);
                    }
                } else {
                    lemma_elem_end_bounds(s, c.end, name, depth);
                }
            } else if spec_letter(s[p + 1]) {
                lemma_parse_open_bounds(s, p);
                let t = spec_parse_open(s, p);
                if spec_lower_range(s, t.name_start, t.name_end) == name && !t.self_closing {
                    lemma_elem_end_bounds(s, t.end, name, depth + 1);
                } else {
                    lemma_elem_end_bounds(s, t.end, name, depth);
                }
            } else {
                lemma_elem_end_bounds(s, p + 1, name, depth);
            }
        }
    }
}

/// Exec mirror of `spec_elem_end`. `depth` counts still-unclosed same-named
/// opens; overflow cannot occur because each nested open consumes input.
pub fn elem_end(s: &Vec<u8>, i: usize, name: &Vec<u8>, depth: usize, pat: &Vec<u8>) -> (r: usize)
    requires
        i <= s@.len(),
        pat@ == spec_data_htms(),
        depth <= i,
    ensures
        r == spec_elem_end(s@, i as int, name@, depth as int),
        i <= r <= s@.len(),
    decreases s@.len() - i,
{
    proof {
        lemma_elem_end_bounds(s@, i as int, name@, depth as int);
    }
    if i >= s.len() {
        s.len()
    } else {
        let p = find_byte(s, i, LT);
        if p >= s.len() || p + 1 >= s.len() {
            s.len()
        } else if s[p + 1] == BANG || s[p + 1] == QUESTION {
            elem_end(s, decl_end(s, p), name, depth, pat)
        } else if s[p + 1] == SLASH {
            let c = parse_close(s, p);
            if range_eq_lower(s, c.name_start, c.name_end, name) {
                if depth == 0 {
                    c.end
                } else {
                    elem_end(s, c.end, name, depth - 1, pat)
                }
            } else {
                elem_end(s, c.end, name, depth, pat)
            }
        } else if is_letter(s[p + 1]) {
            let t = parse_open(s, p, pat);
            if range_eq_lower(s, t.name_start, t.name_end, name) && !t.self_closing {
                elem_end(s, t.end, name, depth + 1, pat)
            } else {
                elem_end(s, t.end, name, depth, pat)
            }
        } else {
            elem_end(s, p + 1, name, depth, pat)
        }
    }
}

} // verus!
