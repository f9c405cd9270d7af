//! The two passes of the template builder.
//!
//! Pass one replaces every element carrying a `data-htms="include:<path>"`
//! marker with the contents of the referenced file. Pass two, run on the
//! expanded stream, records the root container, injects the fixed style and
//! script blocks, drops the root's and the body's closing tags, and
//! validates and normalizes every `data-htms="fn:<name>"` marker while
//! collecting the distinct task names.

use vstd::prelude::*;

use crate::assets::{spec_script_block, spec_style_block, script_block_vec, style_block_vec};
use crate::bytes_util::{
    push_all, push_lower_range, push_range, range_eq, range_eq_lower, spec_letter,
    spec_lower_range, spec_trim_end, trim_end, BANG, LT, QUESTION, SLASH,
};
use crate::ident::{is_valid_identifier, spec_valid_ident};
use crate::scan::{
    data_htms_pat, decl_end, elem_end, lemma_decl_end_bounds, lemma_elem_end_bounds,
    lemma_parse_close_bounds, lemma_parse_open_bounds, parse_close, parse_open, spec_data_htms,
    spec_decl_end, spec_elem_end, spec_parse_close, spec_parse_open,
};

verus! {

/// The bytes of the `fn:` marker prefix.
pub open spec fn spec_fn_prefix() -> Seq<u8> {
    seq![102u8, 110u8, 58u8]
}

/// The bytes of the `include:` marker prefix.
pub open spec fn spec_include_prefix() -> Seq<u8> {
    seq![105u8, 110u8, 99u8, 108u8, 117u8, 100u8, 101u8, 58u8]
}

/// The lower-cased bytes of the root container's tag name, `html`.
pub open spec fn spec_html_name() -> Seq<u8> {
    seq![104u8, 116u8, 109u8, 108u8]
}

/// The lower-cased bytes of the head section's tag name, `head`.
pub open spec fn spec_head_name() -> Seq<u8> {
    seq![104u8, 101u8, 97u8, 100u8]
}

/// The lower-cased bytes of the body container's tag name, `body`.
pub open spec fn spec_body_name() -> Seq<u8> {
    seq![98u8, 111u8, 100u8, 121u8]
}

/// The byte patterns the passes match against.
pub struct Pats {
    pub dh: Vec<u8>,
    pub fnp: Vec<u8>,
    pub inc: Vec<u8>,
    pub html: Vec<u8>,
    pub head: Vec<u8>,
    pub body: Vec<u8>,
    pub style: Vec<u8>,
    pub script: Vec<u8>,
}

/// Well-formedness of the pattern bundle.
pub open spec fn spec_pats_wf(p: &Pats) -> bool {
    &&& p.dh@ == spec_data_htms()
    &&& p.fnp@ == spec_fn_prefix()
    &&& p.inc@ == spec_include_prefix()
    &&& p.html@ == spec_html_name()
    &&& p.head@ == spec_head_name()
    &&& p.body@ == spec_body_name()
    &&& p.style@ == spec_style_block()
    &&& p.script@ == spec_script_block()
}

/// Builds the pattern bundle.
pub fn make_pats() -> (p: Pats)
    ensures
        spec_pats_wf(&p),
{
    let mut fnp: Vec<u8> = Vec::new();
    fnp.push(102);
    fnp.push(110);
    fnp.push(58);
    let mut inc: Vec<u8> = Vec::new();
    inc.push(105);
    inc.push(110);
    inc.push(99);
    inc.push(108);
    inc.push(117);
    inc.push(100);
    inc.push(101);
    inc.push(58);
    let mut html: Vec<u8> = Vec::new();
    html.push(104);
    html.push(116);
    html.push(109);
    html.push(108);
    let mut head: Vec<u8> = Vec::new();
    head.push(104);
    head.push(101);
    head.push(97);
    head.push(100);
    let mut body: Vec<u8> = Vec::new();
    body.push(98);
    body.push(111);
    body.push(100);
    body.push(121);
    let p = Pats {
        dh: data_htms_pat(),
        fnp,
        inc,
        html,
        head,
        body,
        style: style_block_vec(),
        script: script_block_vec(),
    };
    proof {
        assert(p.fnp@ =~= spec_fn_prefix());
        assert(p.inc@ =~= spec_include_prefix());
        assert(p.html@ =~= spec_html_name());
        assert(p.head@ =~= spec_head_name());
        assert(p.body@ =~= spec_body_name());
    }
    p
}

/// One include file handed to the builder: the path as it appears in the
/// marker, its contents if it could be read, and otherwise a description of
/// the failure.
pub struct IncludeFile {
    /// The path exactly as written after `include:` in the marker.
    pub path: Vec<u8>,
    /// The file's contents, or `None` if it could not be read.
    pub content: Option<Vec<u8>>,
    /// A description of the read failure when `content` is `None`.
    pub detail: String,
}

/// Spec-level form of an include file.
pub ghost struct IncludeFileV {
    pub path: Seq<u8>,
    pub content: Option<Seq<u8>>,
    pub detail: Seq<char>,
}

impl View for IncludeFile {
    type V = IncludeFileV;

    open spec fn view(&self) -> IncludeFileV {
        IncludeFileV {
            path: self.path@,
            content: match self.content {
                Some(c) => Some(c@),
                None => None,
            },
            detail: self.detail@,
        }
    }
}

/// The views of a sequence of include files.
pub open spec fn spec_files_view(files: Seq<IncludeFile>) -> Seq<IncludeFileV> {
    files.map_values(|f: IncludeFile| f@)
}

/// The first entry whose path equals `path`, searching from `i`.
pub open spec fn spec_lookup_from(files: Seq<IncludeFileV>, path: Seq<u8>, i: int) -> Option<
    IncludeFileV,
>
    decreases files.len() - i,
{
    if i < 0 || i >= files.len() {
        None
    } else if files[i].path == path {
        Some(files[i])
    } else {
        spec_lookup_from(files, path, i + 1)
    }
}

/// Finds the first include file whose path equals `path`.
fn lookup_from(files: &Vec<IncludeFile>, path: &Vec<u8>, i: usize) -> (r: Option<usize>)
    requires
        i <= files@.len(),
    ensures
        match r {
            Some(idx) => idx < files@.len() && spec_lookup_from(
                spec_files_view(files@),
                path@,
                i as int,
            ) == Some(files@[idx as int]@),
            None => spec_lookup_from(spec_files_view(files@), path@, i as int) is None,
        },
    decreases files@.len() - i,
{
    if i >= files.len() {
        None
    } else if crate::bytes_util::bytes_eq(&files[i].path, path) {
        Some(i)
    } else {
        lookup_from(files, path, i + 1)
    }
}

/// A failed include: the element's (lower-cased) tag name, the path written
/// in the marker, the element's byte offset, and the reason the file could
/// not be provided.
pub ghost struct SpecIncludeErr {
    pub tag: Seq<u8>,
    pub path: Seq<u8>,
    pub offset: int,
    pub detail: Seq<char>,
}

/// Exec form of a failed include.
pub struct IncludeErr {
    pub tag: Vec<u8>,
    pub path: Vec<u8>,
    pub offset: usize,
    pub detail: String,
}

impl View for IncludeErr {
    type V = SpecIncludeErr;

    open spec fn view(&self) -> SpecIncludeErr {
        SpecIncludeErr {
            tag: self.tag@,
            path: self.path@,
            offset: self.offset as int,
            detail: self.detail@,
        }
    }
}

/// The resolution pass: copies `s[pos..]` onto `out`, replacing every
/// element marked `data-htms="include:<path>"` (tag through matching close
/// tag) with the contents of the file registered for `<path>`, and failing
/// on the first marker whose file is missing.
pub open spec fn spec_pass1(
    s: Seq<u8>,
    files: Seq<IncludeFileV>,
    pos: int,
    out: Seq<u8>,
) -> Result<Seq<u8>, SpecIncludeErr>
    decreases s.len() - pos,
    via spec_pass1_decreases
{
    if pos < 0 || pos >= s.len() {
        Ok(out)
    } else if s[pos] != LT {
        spec_pass1(s, files, pos + 1, out.push(s[pos]))
    } else if pos + 1 >= s.len() {
        spec_pass1(s, files, pos + 1, out.push(s[pos]))
    } else if s[pos + 1] == BANG || s[pos + 1] == QUESTION {
        let e = spec_decl_end(s, pos);
        spec_pass1(s, files, e, out + s.subrange(pos, e))
    } else if s[pos + 1] == SLASH {
        let c = spec_parse_close(s, pos);
        spec_pass1(s, files, c.end, out + s.subrange(pos, c.end))
    } else if spec_letter(s[pos + 1]) {
        let t = spec_parse_open(s, pos);
        match t.dh {
            Some((a, b)) => {
                if b - a >= 8 && s.subrange(a, a + 8) == spec_include_prefix() {
                    let path = s.subrange(a + 8, spec_trim_end(s, a + 8, b));
                    let lname = spec_lower_range(s, t.name_start, t.name_end);
                    match spec_lookup_from(files, path, 0) {
                        Some(f) => match f.content {
                            Some(content) => {
                                let e = if t.self_closing {
                                    t.end
                                } else {
                                    spec_elem_end(s, t.end, lname, 0)
                                };
                                spec_pass1(s, files, e, out + content)
                            },
                            None => Err(
                                SpecIncludeErr { tag: lname, path, offset: pos, detail: f.detail },
                            ),
                        },
                        None => Err(
                            SpecIncludeErr { tag: lname, path, offset: pos, detail: Seq::empty() },
                        ),
                    }
                } else {
                    spec_pass1(s, files, t.end, out + s.subrange(pos, t.end))
                }
            },
            None => spec_pass1(s, files, t.end, out + s.subrange(pos, t.end)),
        }
    } else {
        spec_pass1(s, files, pos + 1, out.push(s[pos]))
    }
}

#[via_fn]
proof fn spec_pass1_decreases(s: Seq<u8>, files: Seq<IncludeFileV>, pos: int, out: Seq<u8>) {
    if 0 <= pos < s.len() && s[pos] == LT && pos + 1 < s.len() {
        if s[pos + 1] == BANG || s[pos + 1] == QUESTION {
            lemma_decl_end_bounds(s, pos);
        } else if s[pos + 1] == SLASH {
            lemma_parse_close_bounds(s, pos);
        } else if spec_letter(s[pos + 1]) {
            lemma_parse_open_bounds(s, pos);
            let t = spec_parse_open(s, pos);
            let lname = spec_lower_range(s, t.name_start, t.name_end);
            lemma_elem_end_bounds(s, t.end, lname, 0);
        }
    }
}

/// Exec mirror of `spec_pass1`.
pub fn pass1(
    s: &Vec<u8>,
    files: &Vec<IncludeFile>,
    pos: usize,
    out: Vec<u8>,
    pats: &Pats,
) -> (r: Result<Vec<u8>, IncludeErr>)
    requires
        pos <= s@.len(),
        spec_pats_wf(pats),
    ensures
        match r {
            Ok(v) => spec_pass1(s@, spec_files_view(files@), pos as int, out@)
                matches Ok(g) && v@ == g,
            Err(e) => spec_pass1(s@, spec_files_view(files@), pos as int, out@)
                matches Err(g) && e@ == g,
        },
    decreases s@.len() - pos,
{
    let ghost out0 = out@;
    let mut out = out;
    if pos >= s.len() {
        Ok(out)
    } else if s[pos] != LT {
        out.push(s[pos]);
        pass1(s, files, pos + 1, out, pats)
    } else if pos + 1 >= s.len() {
        out.push(s[pos]);
        pass1(s, files, pos + 1, out, pats)
    } else if s[pos + 1] == BANG || s[pos + 1] == QUESTION {
        let e = decl_end(s, pos);
        push_range(&mut out, s, pos, e);
        pass1(s, files, e, out, pats)
    } else if s[pos + 1] == SLASH {
        let c = parse_close(s, pos);
        push_range(&mut out, s, pos, c.end);
        pass1(s, files, c.end, out, pats)
    } else if crate::bytes_util::is_letter(s[pos + 1]) {
        let t = parse_open(s, pos, &pats.dh);
        let mut is_inc = false;
        if t.has_dh && t.dh_end - t.dh_start >= 8 {
            is_inc = range_eq(s, t.dh_start, t.dh_start + 8, &pats.inc);
        }
        if is_inc {
            let a = t.dh_start;
            let b = t.dh_end;
            let pend = trim_end(s, a + 8, b);
            let mut path: Vec<u8> = Vec::new();
            push_range(&mut path, s, a + 8, pend);
            proof {
                assert(path@ =~= s@.subrange(
                    a + 8,
                    spec_trim_end(s@, a as int + 8, b as int),
                ));
            }
            match lookup_from(files, &path, 0) {
                Some(idx) => {
                    match &files[idx].content {
                        Some(content) => {
                            let e = if t.self_closing {
                                t.end
                            } else {
                                let mut lname: Vec<u8> = Vec::new();
                                push_lower_range(&mut lname, s, t.name_start, t.name_end);
                                proof {
                                    assert(lname@ =~= spec_lower_range(
                                        s@,
                                        t.name_start as int,
                                        t.name_end as int,
                                    ));
                                }
                                elem_end(s, t.end, &lname, 0, &pats.dh)
                            };
                            push_all(&mut out, content);
                            pass1(s, files, e, out, pats)
                        },
                        None => {
                            let mut lname: Vec<u8> = Vec::new();
                            push_lower_range(&mut lname, s, t.name_start, t.name_end);
                            proof {
                                assert(lname@ =~= spec_lower_range(
                                    s@,
                                    t.name_start as int,
                                    t.name_end as int,
                                ));
                            }
                            Err(
                                IncludeErr {
                                    tag: lname,
                                    path,
                                    offset: pos,
                                    detail: files[idx].detail.clone(),
                                },
                            )
                        },
                    }
                },
                None => {
                    let mut lname: Vec<u8> = Vec::new();
                    push_lower_range(&mut lname, s, t.name_start, t.name_end);
                    proof {
                        assert(lname@ =~= spec_lower_range(
                            s@,
                            t.name_start as int,
                            t.name_end as int,
                        ));
                    }
                    Err(IncludeErr { tag: lname, path, offset: pos, detail: String::new() })
                },
            }
        } else {
            push_range(&mut out, s, pos, t.end);
            pass1(s, files, t.end, out, pats)
        }
    } else {
        out.push(s[pos]);
        pass1(s, files, pos + 1, out, pats)
    }
}


/// The views of a sequence of collected names.
pub open spec fn spec_names_view(names: Seq<Vec<u8>>) -> Seq<Seq<u8>> {
    names.map_values(|n: Vec<u8>| n@)
}

/// Whether `n` already occurs among `names`.
pub open spec fn spec_contains_name(names: Seq<Seq<u8>>, n: Seq<u8>) -> bool {
    exists|i: int| 0 <= i < names.len() && names[i] == n
}

/// Adds `n` to `names` unless it is already there.
pub open spec fn spec_insert_name(names: Seq<Seq<u8>>, n: Seq<u8>) -> Seq<Seq<u8>> {
    if spec_contains_name(names, n) {
        names
    } else {
        names.push(n)
    }
}

/// Decides whether `n` already occurs among `names`.
fn contains_name(names: &Vec<Vec<u8>>, n: &Vec<u8>) -> (r: bool)
    ensures
        r == spec_contains_name(spec_names_view(names@), n@),
{
    let mut i: usize = 0;
    while i < names.len()
        invariant
            0 <= i <= names@.len(),
            forall|j: int| 0 <= j < i ==> spec_names_view(names@)[j] != n@,
        decreases names@.len() - i,
    {
        if crate::bytes_util::bytes_eq(&names[i], n) {
            proof {
                assert(spec_names_view(names@)[i as int] == n@);
            }
            return true;
        }
        i += 1;
    }
    false
}

/// The state of the binding/rewrite pass.
pub ghost struct P2 {
    /// The rewritten output so far.
    pub out: Seq<u8>,
    /// Whether a root container has been seen.
    pub has_html: bool,
    /// Root containers seen and not yet closed.
    pub htmls: int,
    /// Head sections (inside a root container) seen and not yet closed.
    pub heads: int,
    /// Body containers (inside a root container) seen and not yet closed.
    pub bodies: int,
    /// The distinct task names collected, in first-reference order.
    pub names: Seq<Seq<u8>>,
    /// Style blocks injected.
    pub styles: int,
    /// Script blocks injected.
    pub scripts: int,
}

/// A rejected `fn:` marker: the element's (lower-cased) tag name and its
/// byte offset in the expanded stream.
pub ghost struct SpecAttrErr {
    pub tag: Seq<u8>,
    pub offset: int,
}

/// Exec form of a rejected `fn:` marker.
pub struct AttrErr {
    pub tag: Vec<u8>,
    pub offset: usize,
}

impl View for AttrErr {
    type V = SpecAttrErr;

    open spec fn view(&self) -> SpecAttrErr {
        SpecAttrErr { tag: self.tag@, offset: self.offset as int }
    }
}

/// Exec state of the binding/rewrite pass.
pub struct BuildSt {
    pub out: Vec<u8>,
    pub has_html: bool,
    pub htmls: usize,
    pub heads: usize,
    pub bodies: usize,
    pub names: Vec<Vec<u8>>,
    pub styles: usize,
    pub scripts: usize,
}

impl View for BuildSt {
    type V = P2;

    open spec fn view(&self) -> P2 {
        P2 {
            out: self.out@,
            has_html: self.has_html,
            htmls: self.htmls as int,
            heads: self.heads as int,
            bodies: self.bodies as int,
            names: spec_names_view(self.names@),
            styles: self.styles as int,
            scripts: self.scripts as int,
        }
    }
}

/// Counter bound that rules out overflow: every counter is covered by input
/// already consumed.
pub open spec fn spec_p2_counters_ok(st: P2, pos: int) -> bool {
    &&& 0 <= st.htmls <= pos
    &&& 0 <= st.heads <= pos
    &&& 0 <= st.bodies <= pos
    &&& 0 <= st.styles <= pos
    &&& 0 <= st.scripts <= pos
}

/// The binding/rewrite pass from `pos` with state `st`: records the root
/// container and drops its closing tag, injects the style block before each
/// matched head section's closing tag, injects the script block in place of
/// each matched body container's closing tag, validates and normalizes
/// every `fn:` marker, and collects the distinct task names.
pub open spec fn spec_pass2(s: Seq<u8>, pos: int, st: P2) -> Result<P2, SpecAttrErr>
    decreases s.len() - pos,
    via spec_pass2_decreases
{
    if pos < 0 || pos >= s.len() {
        Ok(st)
    } else if s[pos] != LT || pos + 1 >= s.len() {
        spec_pass2(s, pos + 1, P2 { out: st.out.push(s[pos]), ..st })
    } else if s[pos + 1] == BANG || s[pos + 1] == QUESTION {
        let e = spec_decl_end(s, pos);
        spec_pass2(s, e, P2 { out: st.out + s.subrange(pos, e), ..st })
    } else if s[pos + 1] == SLASH {
        let c = spec_parse_close(s, pos);
        let lname = spec_lower_range(s, c.name_start, c.name_end);
        if lname == spec_html_name() && st.htmls > 0 {
            spec_pass2(s, c.end, P2 { htmls: st.htmls - 1, ..st })
        } else if lname == spec_head_name() && st.heads > 0 {
            spec_pass2(
                s,
                c.end,
                P2 {
                    out: st.out + spec_style_block() + s.subrange(pos, c.end),
                    heads: st.heads - 1,
                    styles: st.styles + 1,
                    ..st
                },
            )
        } else if lname == spec_body_name() && st.bodies > 0 {
            spec_pass2(
                s,
                c.end,
                P2 {
                    out: st.out + spec_script_block(),
                    bodies: st.bodies - 1,
                    scripts: st.scripts + 1,
                    ..st
                },
            )
        } else {
            spec_pass2(s, c.end, P2 { out: st.out + s.subrange(pos, c.end), ..st })
        }
    } else if spec_letter(s[pos + 1]) {
        let t = spec_parse_open(s, pos);
        let lname = spec_lower_range(s, t.name_start, t.name_end);
        let counted = !t.self_closing;
        let htmls2 = if lname == spec_html_name() && counted {
            st.htmls + 1
        } else {
            st.htmls
        };
        let heads2 = if lname == spec_head_name() && st.htmls > 0 && counted {
            st.heads + 1
        } else {
            st.heads
        };
        let bodies2 = if lname == spec_body_name() && st.htmls > 0 && counted {
            st.bodies + 1
        } else {
            st.bodies
        };
        let has_html2 = st.has_html || lname == spec_html_name();
        let is_fn = match t.dh {
            Some((a, b)) => b - a >= 3 && s.subrange(a, a + 3) == spec_fn_prefix(),
            None => false,
        };
        if is_fn {
            let a = t.dh->Some_0.0;
            let b = t.dh->Some_0.1;
            let name = s.subrange(a + 3, spec_trim_end(s, a + 3, b));
            if spec_valid_ident(name) {
                spec_pass2(
                    s,
                    t.end,
                    P2 {
                        out: st.out + s.subrange(pos, a) + name + s.subrange(b, t.end),
                        has_html: has_html2,
                        htmls: htmls2,
                        heads: heads2,
                        bodies: bodies2,
                        names: spec_insert_name(st.names, name),
                        ..st
                    },
                )
            } else {
                Err(SpecAttrErr { tag: lname, offset: pos })
            }
        } else {
            spec_pass2(
                s,
                t.end,
                P2 {
                    out: st.out + s.subrange(pos, t.end),
                    has_html: has_html2,
                    htmls: htmls2,
                    heads: heads2,
                    bodies: bodies2,
                    ..st
                },
            )
        }
    } else {
        spec_pass2(s, pos + 1, P2 { out: st.out.push(s[pos]), ..st })
    }
}

#[via_fn]
proof fn spec_pass2_decreases(s: Seq<u8>, pos: int, st: P2) {
    if 0 <= pos < s.len() && s[pos] == LT && pos + 1 < s.len() {
        if s[pos + 1] == BANG || s[pos + 1] == QUESTION {
            lemma_decl_end_bounds(s, pos);
        } else if s[pos + 1] == SLASH {
            lemma_parse_close_bounds(s, pos);
        } else if spec_letter(s[pos + 1]) {
            lemma_parse_open_bounds(s, pos);
        }
    }
}

/// Exec mirror of `spec_pass2`.
pub fn pass2(s: &Vec<u8>, pos: usize, st: BuildSt, pats: &Pats) -> (r: Result<BuildSt, AttrErr>)
    requires
        pos <= s@.len(),
        spec_pats_wf(pats),
        spec_p2_counters_ok(st@, pos as int),
    ensures
        match r {
            Ok(v) => spec_pass2(s@, pos as int, st@) matches Ok(g) && v@ == g,
            Err(e) => spec_pass2(s@, pos as int, st@) matches Err(g) && e@ == g,
        },
    decreases s@.len() - pos,
{
    let mut st = st;
    if pos >= s.len() {
        Ok(st)
    } else if s[pos] != LT || pos + 1 >= s.len() {
        st.out.push(s[pos]);
        pass2(s, pos + 1, st, pats)
    } else if s[pos + 1] == BANG || s[pos + 1] == QUESTION {
        let e = decl_end(s, pos);
        push_range(&mut st.out, s, pos, e);
        pass2(s, e, st, pats)
    } else if s[pos + 1] == SLASH {
        let c = parse_close(s, pos);
        if range_eq_lower(s, c.name_start, c.name_end, &pats.html) && st.htmls > 0 {
            st.htmls = st.htmls - 1;
            pass2(s, c.end, st, pats)
        } else if range_eq_lower(s, c.name_start, c.name_end, &pats.head) && st.heads > 0 {
            push_all(&mut st.out, &pats.style);
            push_range(&mut st.out, s, pos, c.end);
            st.heads = st.heads - 1;
            st.styles = st.styles + 1;
            pass2(s, c.end, st, pats)
        } else if range_eq_lower(s, c.name_start, c.name_end, &pats.body) && st.bodies > 0 {
            push_all(&mut st.out, &pats.script);
            st.bodies = st.bodies - 1;
            st.scripts = st.scripts + 1;
            pass2(s, c.end, st, pats)
        } else {
            push_range(&mut st.out, s, pos, c.end);
            pass2(s, c.end, st, pats)
        }
    } else if crate::bytes_util::is_letter(s[pos + 1]) {
        let t = parse_open(s, pos, &pats.dh);
        let is_html = range_eq_lower(s, t.name_start, t.name_end, &pats.html);
        let is_head = range_eq_lower(s, t.name_start, t.name_end, &pats.head);
        let is_body = range_eq_lower(s, t.name_start, t.name_end, &pats.body);
        let counted = !t.self_closing;
        let mut is_fn = false;
        if t.has_dh && t.dh_end - t.dh_start >= 3 {
            is_fn = range_eq(s, t.dh_start, t.dh_start + 3, &pats.fnp);
        }
        if is_fn {
            let a = t.dh_start;
            let b = t.dh_end;
            let nend = trim_end(s, a + 3, b);
            let mut name: Vec<u8> = Vec::new();
            push_range(&mut name, s, a + 3, nend);
            proof {
                assert(name@ =~= s@.subrange(
                    a + 3,
                    spec_trim_end(s@, a as int + 3, b as int),
                ));
            }
            if is_valid_identifier(&name) {
                push_range(&mut st.out, s, pos, a);
                push_all(&mut st.out, &name);
                push_range(&mut st.out, s, b, t.end);
                let h2: usize = if is_html && counted {
                    st.htmls + 1
                } else {
                    st.htmls
                };
                let hd2: usize = if is_head && st.htmls > 0 && counted {
                    st.heads + 1
                } else {
                    st.heads
                };
                let b2: usize = if is_body && st.htmls > 0 && counted {
                    st.bodies + 1
                } else {
                    st.bodies
                };
                st.htmls = h2;
                st.heads = hd2;
                st.bodies = b2;
                st.has_html = st.has_html || is_html;
                let ghost names0 = spec_names_view(st.names@);
                let ghost nv = name@;
                if !contains_name(&st.names, &name) {
                    st.names.push(name);
                }
                proof {
                    assert(spec_names_view(st.names@) =~= spec_insert_name(names0, nv));
                }
                pass2(s, t.end, st, pats)
            } else {
                let mut lname: Vec<u8> = Vec::new();
                push_lower_range(&mut lname, s, t.name_start, t.name_end);
                proof {
                    assert(lname@ =~= spec_lower_range(
                        s@,
                        t.name_start as int,
                        t.name_end as int,
                    ));
                }
                Err(AttrErr { tag: lname, offset: pos })
            }
        } else {
            push_range(&mut st.out, s, pos, t.end);
            let h2: usize = if is_html && counted {
                st.htmls + 1
            } else {
                st.htmls
            };
            let hd2: usize = if is_head && st.htmls > 0 && counted {
                st.heads + 1
            } else {
                st.heads
            };
            let b2: usize = if is_body && st.htmls > 0 && counted {
                st.bodies + 1
            } else {
                st.bodies
            };
            st.htmls = h2;
            st.heads = hd2;
            st.bodies = b2;
            st.has_html = st.has_html || is_html;
            pass2(s, t.end, st, pats)
        }
    } else {
        st.out.push(s[pos]);
        pass2(s, pos + 1, st, pats)
    }
}


/// The initial state of the binding/rewrite pass.
pub open spec fn spec_p2_init() -> P2 {
    P2 {
        out: Seq::empty(),
        has_html: false,
        htmls: 0,
        heads: 0,
        bodies: 0,
        names: Seq::empty(),
        styles: 0,
        scripts: 0,
    }
}

/// Builds the initial exec state of the binding/rewrite pass.
pub fn make_build_st() -> (st: BuildSt)
    ensures
        st@ == spec_p2_init(),
{
    let st = BuildSt {
        out: Vec::new(),
        has_html: false,
        htmls: 0,
        heads: 0,
        bodies: 0,
        names: Vec::new(),
        styles: 0,
        scripts: 0,
    };
    proof {
        assert(st@.out =~= spec_p2_init().out);
        assert(st@.names =~= spec_p2_init().names);
    }
    st
}

/// A well-formed name collection: every entry is a valid identifier and no
/// entry occurs twice.
pub open spec fn spec_names_ok(names: Seq<Seq<u8>>) -> bool {
    &&& forall|i: int| 0 <= i < names.len() ==> spec_valid_ident(#[trigger] names[i])
    &&& forall|i: int, j: int| 0 <= i < j < names.len() ==> names[i] !== names[j]
}

/// The binding/rewrite pass keeps the name collection well formed: it only
/// ever adds a validated identifier, and only when the name is not yet
/// there. So each referenced task name occurs at most once, however many
/// elements reference it.
pub proof fn lemma_pass2_names(s: Seq<u8>, pos: int, st: P2)
    requires
        spec_names_ok(st.names),
    ensures
        spec_pass2(s, pos, st) matches Ok(g) ==> spec_names_ok(g.names),
    decreases s.len() - pos,
{
    if pos < 0 || pos >= s.len() {
    } else if s[pos] != LT || pos + 1 >= s.len() {
        lemma_pass2_names(s, pos + 1, P2 { out: st.out.push(s[pos]), ..st });
    } else if s[pos + 1] == BANG || s[pos + 1] == QUESTION {
        lemma_decl_end_bounds(s, pos);
        let e = spec_decl_end(s, pos);
        lemma_pass2_names(s, e, P2 { out: st.out + s.subrange(pos, e), ..st });
    } else if s[pos + 1] == SLASH {
        lemma_parse_close_bounds(s, pos);
        let c = spec_parse_close(s, pos);
        let lname = spec_lower_range(s, c.name_start, c.name_end);
        if lname == spec_html_name() && st.htmls > 0 {
            lemma_pass2_names(s, c.end, P2 { htmls: st.htmls - 1, ..st });
        } else if lname == spec_head_name() && st.heads > 0 {
            lemma_pass2_names(
                s,
                c.end,
                P2 {
                    out: st.out + spec_style_block() + s.subrange(pos, c.end),
                    heads: st.heads - 1,
                    styles: st.styles + 1,
                    ..st
                },
            );
        } else if lname == spec_body_name() && st.bodies > 0 {
            lemma_pass2_names(
                s,
                c.end,
                P2 {
                    out: st.out + spec_script_block(),
                    bodies: st.bodies - 1,
                    scripts: st.scripts + 1,
                    ..st
                },
            );
        } else {
            lemma_pass2_names(s, c.end, P2 { out: st.out + s.subrange(pos, c.end), ..st });
        }
    } else if spec_letter(s[pos + 1]) {
        lemma_parse_open_bounds(s, pos);
        let t = spec_parse_open(s, pos);
        let lname = spec_lower_range(s, t.name_start, t.name_end);
        let counted = !t.self_closing;
        let htmls2 = if lname == spec_html_name() && counted {
            st.htmls + 1
        } else {
            st.htmls
        };
        let heads2 = if lname == spec_head_name() && st.htmls > 0 && counted {
            st.heads + 1
        } else {
            st.heads
        };
        let bodies2 = if lname == spec_body_name() && st.htmls > 0 && counted {
            st.bodies + 1
        } else {
            st.bodies
        };
        let has_html2 = st.has_html || lname == spec_html_name();
        let is_fn = match t.dh {
            Some((a, b)) => b - a >= 3 && s.subrange(a, a + 3) == spec_fn_prefix(),
            None => false,
        };
        if is_fn {
            let a = t.dh->Some_0.0;
            let b = t.dh->Some_0.1;
            let name = s.subrange(a + 3, spec_trim_end(s, a + 3, b));
            if spec_valid_ident(name) {
                assert(spec_names_ok(spec_insert_name(st.names, name)));
                lemma_pass2_names(
                    s,
                    t.end,
                    P2 {
                        out: st.out + s.subrange(pos, a) + name + s.subrange(b, t.end),
                        has_html: has_html2,
                        htmls: htmls2,
                        heads: heads2,
                        bodies: bodies2,
                        names: spec_insert_name(st.names, name),
                        ..st
                    },
                );
            }
        } else {
            lemma_pass2_names(
                s,
                t.end,
                P2 {
                    out: st.out + s.subrange(pos, t.end),
                    has_html: has_html2,
                    htmls: htmls2,
                    heads: heads2,
                    bodies: bodies2,
                    ..st
                },
            );
        }
    } else {
        lemma_pass2_names(s, pos + 1, P2 { out: st.out.push(s[pos]), ..st });
    }
}

/// The injection invariant: style or script blocks exist only once a root
/// container has been seen, and open head or body sections imply one too.
pub open spec fn spec_injection_inv(st: P2) -> bool {
    &&& st.htmls > 0 ==> st.has_html
    &&& !st.has_html ==> st.heads == 0 && st.bodies == 0 && st.styles == 0 && st.scripts == 0
}

/// Without a root container nothing is injected: if the pass never sees an
/// `html` open tag, it injects no style block and no script block.
pub proof fn lemma_pass2_no_root_no_injection(s: Seq<u8>, pos: int, st: P2)
    requires
        spec_injection_inv(st),
    ensures
        spec_pass2(s, pos, st) matches Ok(g) ==> spec_injection_inv(g),
        spec_pass2(s, pos, st) matches Ok(g) ==> (!g.has_html ==> g.styles == 0 && g.scripts == 0),
    decreases s.len() - pos,
{
    if pos < 0 || pos >= s.len() {
    } else if s[pos] != LT || pos + 1 >= s.len() {
        lemma_pass2_no_root_no_injection(s, pos + 1, P2 { out: st.out.push(s[pos]), ..st });
    } else if s[pos + 1] == BANG || s[pos + 1] == QUESTION {
        lemma_decl_end_bounds(s, pos);
        let e = spec_decl_end(s, pos);
        lemma_pass2_no_root_no_injection(s, e, P2 { out: st.out + s.subrange(pos, e), ..st });
    } else if s[pos + 1] == SLASH {
        lemma_parse_close_bounds(s, pos);
        let c = spec_parse_close(s, pos);
        let lname = spec_lower_range(s, c.name_start, c.name_end);
        if lname == spec_html_name() && st.htmls > 0 {
            lemma_pass2_no_root_no_injection(s, c.end, P2 { htmls: st.htmls - 1, ..st });
        } else if lname == spec_head_name() && st.heads > 0 {
            lemma_pass2_no_root_no_injection(
                s,
                c.end,
                P2 {
                    out: st.out + spec_style_block() + s.subrange(pos, c.end),
                    heads: st.heads - 1,
                    styles: st.styles + 1,
                    ..st
                },
            );
        } else if lname == spec_body_name() && st.bodies > 0 {
            lemma_pass2_no_root_no_injection(
                s,
                c.end,
                P2 {
                    out: st.out + spec_script_block(),
                    bodies: st.bodies - 1,
                    scripts: st.scripts + 1,
                    ..st
                },
            );
        } else {
            lemma_pass2_no_root_no_injection(
                s,
                c.end,
                P2 { out: st.out + s.subrange(pos, c.end), ..st },
            );
        }
    } else if spec_letter(s[pos + 1]) {
        lemma_parse_open_bounds(s, pos);
        let t = spec_parse_open(s, pos);
        let lname = spec_lower_range(s, t.name_start, t.name_end);
        let counted = !t.self_closing;
        let htmls2 = if lname == spec_html_name() && counted {
            st.htmls + 1
        } else {
            st.htmls
        };
        let heads2 = if lname == spec_head_name() && st.htmls > 0 && counted {
            st.heads + 1
        } else {
            st.heads
        };
        let bodies2 = if lname == spec_body_name() && st.htmls > 0 && counted {
            st.bodies + 1
        } else {
            st.bodies
        };
        let has_html2 = st.has_html || lname == spec_html_name();
        let is_fn = match t.dh {
            Some((a, b)) => b - a >= 3 && s.subrange(a, a + 3) == spec_fn_prefix(),
            None => false,
        };
        if is_fn {
            let a = t.dh->Some_0.0;
            let b = t.dh->Some_0.1;
            let name = s.subrange(a + 3, spec_trim_end(s, a + 3, b));
            if spec_valid_ident(name) {
                lemma_pass2_no_root_no_injection(
                    s,
                    t.end,
                    P2 {
                        out: st.out + s.subrange(pos, a) + name + s.subrange(b, t.end),
                        has_html: has_html2,
                        htmls: htmls2,
                        heads: heads2,
                        bodies: bodies2,
                        names: spec_insert_name(st.names, name),
                        ..st
                    },
                );
            }
        } else {
            lemma_pass2_no_root_no_injection(
                s,
                t.end,
                P2 {
                    out: st.out + s.subrange(pos, t.end),
                    has_html: has_html2,
                    htmls: htmls2,
                    heads: heads2,
                    bodies: bodies2,
                    ..st
                },
            );
        }
    } else {
        lemma_pass2_no_root_no_injection(s, pos + 1, P2 { out: st.out.push(s[pos]), ..st });
    }
}

} // verus!
