//! Laws of the template builder, stated over the passes a build composes.

use vstd::prelude::*;

use crate::bytes_util::{spec_letter, spec_lower_range, spec_trim_end, BANG, LT, QUESTION, SLASH};
use crate::ident::spec_valid_ident;
use crate::passes::{
    lemma_pass2_names, lemma_pass2_no_root_no_injection, spec_fn_prefix, spec_html_name,
    spec_insert_name, spec_names_ok, spec_p2_init, spec_pass1, spec_pass2, IncludeFileV, P2,
    SpecAttrErr,
};
use crate::scan::{
    lemma_decl_end_bounds, lemma_parse_close_bounds, lemma_parse_open_bounds, spec_decl_end,
    spec_parse_close, spec_parse_open,
};

verus! {

/// A template without a root container receives no injection: when a build's
/// binding pass reports that no `html` element was seen, it has injected no
/// style block and no script block into the rewritten output.
pub proof fn lemma_no_root_no_injection(s: Seq<u8>, files: Seq<IncludeFileV>)
    ensures
        spec_pass1(s, files, 0, Seq::empty()) matches Ok(mid) ==> (spec_pass2(
            mid,
            0,
            spec_p2_init(),
        ) matches Ok(g) ==> (!g.has_html ==> g.styles == 0 && g.scripts == 0)),
{
    if let Ok(mid) = spec_pass1(s, files, 0, Seq::empty()) {
        lemma_pass2_no_root_no_injection(mid, 0, spec_p2_init());
    }
}

/// Each referenced task name is collected exactly once: whatever a build's
/// binding pass collects is a duplicate-free sequence of valid identifiers,
/// however many elements reference the same name.
pub proof fn lemma_task_names_distinct(s: Seq<u8>, files: Seq<IncludeFileV>)
    ensures
        spec_pass1(s, files, 0, Seq::empty()) matches Ok(mid) ==> (spec_pass2(
            mid,
            0,
            spec_p2_init(),
        ) matches Ok(g) ==> spec_names_ok(g.names)),
{
    if let Ok(mid) = spec_pass1(s, files, 0, Seq::empty()) {
        lemma_pass2_names(mid, 0, spec_p2_init());
    }
}


/// A pure marker rewrite: copies `s[pos..]` onto `out` verbatim, except that
/// each valid `fn:` marker value is replaced by its bare name (collected
/// into `names`); nothing is injected and no closing tag is dropped.
pub open spec fn spec_plain(s: Seq<u8>, pos: int, out: Seq<u8>, names: Seq<Seq<u8>>) -> Result<
    (Seq<u8>, Seq<Seq<u8>>),
    SpecAttrErr,
>
    decreases s.len() - pos,
    via spec_plain_decreases
{
    if pos < 0 || pos >= s.len() {
        Ok((out, names))
    } else if s[pos] != LT || pos + 1 >= s.len() {
        spec_plain(s, pos + 1, out.push(s[pos]), names)
    } else if s[pos + 1] == BANG || s[pos + 1] == QUESTION {
        let e = spec_decl_end(s, pos);
        spec_plain(s, e, out + s.subrange(pos, e), names)
    } else if s[pos + 1] == SLASH {
        let c = spec_parse_close(s, pos);
        spec_plain(s, c.end, out + s.subrange(pos, c.end), names)
    } else if spec_letter(s[pos + 1]) {
        let t = spec_parse_open(s, pos);
        let is_fn = match t.dh {
            Some((a, b)) => b - a >= 3 && s.subrange(a, a + 3) == spec_fn_prefix(),
            None => false,
        };
        if is_fn {
            let a = t.dh->Some_0.0;
            let b = t.dh->Some_0.1;
            let name = s.subrange(a + 3, spec_trim_end(s, a + 3, b));
            if spec_valid_ident(name) {
                spec_plain(
                    s,
                    t.end,
                    out + s.subrange(pos, a) + name + s.subrange(b, t.end),
                    spec_insert_name(names, name),
                )
            } else {
                Err(
                    SpecAttrErr {
                        tag: spec_lower_range(s, t.name_start, t.name_end),
                        offset: pos,
                    },
                )
            }
        } else {
            spec_plain(s, t.end, out + s.subrange(pos, t.end), names)
        }
    } else {
        spec_plain(s, pos + 1, out.push(s[pos]), names)
    }
}

#[via_fn]
proof fn spec_plain_decreases(s: Seq<u8>, pos: int, out: Seq<u8>, names: Seq<Seq<u8>>) {
    if 0 <= pos < s.len() && s[pos] == LT && pos + 1 < s.len() {
        if s[pos + 1] == BANG || s[pos + 1] == QUESTION {
            lemma_decl_end_bounds(s, pos);
        } else if s[pos + 1] == SLASH {
            lemma_parse_close_bounds(s, pos);
        } else if spec_letter(s[pos + 1]) {
            lemma_parse_open_bounds(s, pos);
        }
    }
}

/// Once the binding pass has seen a root container it never forgets it.
pub proof fn lemma_pass2_has_html_monotone(s: Seq<u8>, pos: int, st: P2)
    ensures
        spec_pass2(s, pos, st) matches Ok(g) ==> (st.has_html ==> g.has_html),
    decreases s.len() - pos,
{
    if pos < 0 || pos >= s.len() {
    } else if s[pos] != LT || pos + 1 >= s.len() {
        lemma_pass2_has_html_monotone(s, pos + 1, P2 { out: st.out.push(s[pos]), ..st });
    } else if s[pos + 1] == BANG || s[pos + 1] == QUESTION {
        lemma_decl_end_bounds(s, pos);
        let e = spec_decl_end(s, pos);
        lemma_pass2_has_html_monotone(s, e, P2 { out: st.out + s.subrange(pos, e), ..st });
    } else if s[pos + 1] == SLASH {
        lemma_parse_close_bounds(s, pos);
        let c = spec_parse_close(s, pos);
        let lname = spec_lower_range(s, c.name_start, c.name_end);
        if lname == crate::passes::spec_html_name() && st.htmls > 0 {
            lemma_pass2_has_html_monotone(s, c.end, P2 { htmls: st.htmls - 1, ..st });
        } else if lname == crate::passes::spec_head_name() && st.heads > 0 {
            lemma_pass2_has_html_monotone(
                s,
                c.end,
                P2 {
                    out: st.out + crate::assets::spec_style_block() + s.subrange(pos, c.end),
                    heads: st.heads - 1,
                    styles: st.styles + 1,
                    ..st
                },
            );
        } else if lname == crate::passes::spec_body_name() && st.bodies > 0 {
            lemma_pass2_has_html_monotone(
                s,
                c.end,
                P2 {
                    out: st.out + crate::assets::spec_script_block(),
                    bodies: st.bodies - 1,
                    scripts: st.scripts + 1,
                    ..st
                },
            );
        } else {
            lemma_pass2_has_html_monotone(
                s,
                c.end,
                P2 { out: st.out + s.subrange(pos, c.end), ..st },
            );
        }
    } else if spec_letter(s[pos + 1]) {
        lemma_parse_open_bounds(s, pos);
        let t = spec_parse_open(s, pos);
        let lname = spec_lower_range(s, t.name_start, t.name_end);
        let counted = !t.self_closing;
        let htmls2 = if lname == spec_html_name() && counted {
            st.htmls + 1
        } else {
            st.htmls
        };
        let heads2 = if lname == crate::passes::spec_head_name() && st.htmls > 0 && counted {
            st.heads + 1
        } else {
            st.heads
        };
        let bodies2 = if lname == crate::passes::spec_body_name() && st.htmls > 0 && counted {
            st.bodies + 1
        } else {
            st.bodies
        };
        let has_html2 = st.has_html || lname == spec_html_name();
        let is_fn = match t.dh {
            Some((a, b)) => b - a >= 3 && s.subrange(a, a + 3) == spec_fn_prefix(),
            None => false,
        };
        if is_fn {
            let a = t.dh->Some_0.0;
            let b = t.dh->Some_0.1;
            let name = s.subrange(a + 3, spec_trim_end(s, a + 3, b));
            if spec_valid_ident(name) {
                lemma_pass2_has_html_monotone(
                    s,
                    t.end,
                    P2 {
                        out: st.out + s.subrange(pos, a) + name + s.subrange(b, t.end),
                        has_html: has_html2,
                        htmls: htmls2,
                        heads: heads2,
                        bodies: bodies2,
                        names: spec_insert_name(st.names, name),
                        ..st
                    },
                );
            }
        } else {
            lemma_pass2_has_html_monotone(
                s,
                t.end,
                P2 {
                    out: st.out + s.subrange(pos, t.end),
                    has_html: has_html2,
                    htmls: htmls2,
                    heads: heads2,
                    bodies: bodies2,
                    ..st
                },
            );
        }
    } else {
        lemma_pass2_has_html_monotone(s, pos + 1, P2 { out: st.out.push(s[pos]), ..st });
    }
}

/// When the binding pass never sees a root container, it behaves as the
/// pure marker rewrite: same output bytes and same collected names.
pub proof fn lemma_pass2_plain(s: Seq<u8>, pos: int, st: P2)
    requires
        !st.has_html,
        st.htmls == 0,
        st.heads == 0,
        st.bodies == 0,
    ensures
        spec_pass2(s, pos, st) matches Ok(g) ==> (!g.has_html ==> (spec_plain(
            s,
            pos,
            st.out,
            st.names,
        ) matches Ok(p) && p.0 == g.out && p.1 == g.names)),
    decreases s.len() - pos,
{
    if pos < 0 || pos >= s.len() {
    } else if s[pos] != LT || pos + 1 >= s.len() {
        lemma_pass2_plain(s, pos + 1, P2 { out: st.out.push(s[pos]), ..st });
    } else if s[pos + 1] == BANG || s[pos + 1] == QUESTION {
        lemma_decl_end_bounds(s, pos);
        let e = spec_decl_end(s, pos);
        lemma_pass2_plain(s, e, P2 { out: st.out + s.subrange(pos, e), ..st });
    } else if s[pos + 1] == SLASH {
        lemma_parse_close_bounds(s, pos);
        let c = spec_parse_close(s, pos);
        lemma_pass2_plain(s, c.end, P2 { out: st.out + s.subrange(pos, c.end), ..st });
    } else if spec_letter(s[pos + 1]) {
        lemma_parse_open_bounds(s, pos);
        let t = spec_parse_open(s, pos);
        let lname = spec_lower_range(s, t.name_start, t.name_end);
        let counted = !t.self_closing;
        let is_fn = match t.dh {
            Some((a, b)) => b - a >= 3 && s.subrange(a, a + 3) == spec_fn_prefix(),
            None => false,
        };
        if lname == spec_html_name() {
            let htmls2 = if counted {
                st.htmls + 1
            } else {
                st.htmls
            };
            if is_fn {
                let a = t.dh->Some_0.0;
                let b = t.dh->Some_0.1;
                let name = s.subrange(a + 3, spec_trim_end(s, a + 3, b));
                if spec_valid_ident(name) {
                    lemma_pass2_has_html_monotone(
                        s,
                        t.end,
                        P2 {
                            out: st.out + s.subrange(pos, a) + name + s.subrange(b, t.end),
                            has_html: true,
                            htmls: htmls2,
                            heads: st.heads,
                            bodies: st.bodies,
                            names: spec_insert_name(st.names, name),
                            ..st
                        },
                    );
                }
            } else {
                lemma_pass2_has_html_monotone(
                    s,
                    t.end,
                    P2 {
                        out: st.out + s.subrange(pos, t.end),
                        has_html: true,
                        htmls: htmls2,
                        heads: st.heads,
                        bodies: st.bodies,
                        ..st
                    },
                );
            }
        } else {
            if is_fn {
                let a = t.dh->Some_0.0;
                let b = t.dh->Some_0.1;
                let name = s.subrange(a + 3, spec_trim_end(s, a + 3, b));
                if spec_valid_ident(name) {
                    lemma_pass2_plain(
                        s,
                        t.end,
                        P2 {
                            out: st.out + s.subrange(pos, a) + name + s.subrange(b, t.end),
                            has_html: false,
                            htmls: st.htmls,
                            heads: st.heads,
                            bodies: st.bodies,
                            names: spec_insert_name(st.names, name),
                            ..st
                        },
                    );
                }
            } else {
                lemma_pass2_plain(
                    s,
                    t.end,
                    P2 {
                        out: st.out + s.subrange(pos, t.end),
                        has_html: false,
                        htmls: st.htmls,
                        heads: st.heads,
                        bodies: st.bodies,
                        ..st
                    },
                );
            }
        }
    } else {
        lemma_pass2_plain(s, pos + 1, P2 { out: st.out.push(s[pos]), ..st });
    }
}

/// A template without a root container is not reshaped: when a build's
/// binding pass reports that no `html` element was seen, its output is the
/// expanded input with only the `fn:` marker rewrites applied — no style or
/// script block injected and no closing tag dropped — and its names are
/// exactly what the pure marker rewrite collects.
pub proof fn lemma_no_root_plain_rewrite(s: Seq<u8>, files: Seq<IncludeFileV>)
    ensures
        spec_pass1(s, files, 0, Seq::empty()) matches Ok(mid) ==> (spec_pass2(
            mid,
            0,
            spec_p2_init(),
        ) matches Ok(g) ==> (!g.has_html ==> (spec_plain(mid, 0, Seq::empty(), Seq::empty())
            matches Ok(p) && p.0 == g.out && p.1 == g.names))),
{
    if let Ok(mid) = spec_pass1(s, files, 0, Seq::empty()) {
        lemma_pass2_plain(mid, 0, spec_p2_init());
    }
}

} // verus!
