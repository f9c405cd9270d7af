//! The template builder's public surface: the build error family, the build
//! result, the include scan and the build itself.

use vstd::prelude::*;
use vstd::string::StrSliceExecFns;
use vstd::string::StringExecFns;
use vstd::string::StringSliceAdditionalSpecFns;
use vstd::utf8::encode_utf8;

use crate::bytes_util::{push_all, spec_letter, spec_lower_range, spec_trim_end, trim_end, push_range, range_eq, BANG, LT, QUESTION, SLASH};
use crate::ident::spec_valid_ident;
use crate::passes::{
    make_build_st, make_pats, pass1, pass2, spec_files_view, spec_names_ok, spec_names_view,
    spec_p2_init, spec_pass1, spec_pass2, lemma_pass2_names, spec_include_prefix, spec_pats_wf,
    IncludeFile, Pats, SpecAttrErr, SpecIncludeErr,
};
use crate::scan::{
    decl_end, elem_end, lemma_decl_end_bounds, lemma_elem_end_bounds, lemma_parse_close_bounds,
    lemma_parse_open_bounds, parse_close, parse_open, spec_decl_end, spec_elem_end,
    spec_parse_close, spec_parse_open,
};
use crate::text::{bytes_to_string, push_decimal, spec_ascii_bytes, spec_ascii_chars, spec_decimal};

verus! {

/// Everything that can make a build fail. Validation failures carry the
/// offending element's tag name and byte offset; failures around the
/// input and output files carry the path concerned and a description.
#[derive(Debug)]
pub enum Error {
    /// The input template could not be opened.
    OpenInputPath(String, String),
    /// The output file's parent directory could not be created.
    CreateOutputDirectory(String, String),
    /// The output file could not be created.
    CreateOutputFile(String, String),
    /// A chunk of the input template could not be read.
    ReadInputChunk(String, String),
    /// A rewritten chunk could not be produced; wraps the validation error.
    WriteOutputChunk(String, Box<Error>),
    /// A rewritten chunk could not be written to the output file.
    WriteOutputFileChunk(String, String),
    /// The resolution pass failed; wraps the include error.
    RewriteTemplate(String, Box<Error>),
    /// The output file could not be flushed.
    FlushOutputFile(String, String),
    /// A `fn:` marker whose name is not a valid identifier.
    InvalidHtmsAttribute { tag: Vec<u8>, offset: usize },
    /// An `include:` marker whose file is missing or unreadable.
    IncludeFragment { tag: Vec<u8>, path: Vec<u8>, offset: usize, detail: String },
}

/// A path-and-description message part: `<head>: <path>: <detail>`.
pub open spec fn spec_part(head: Seq<u8>, p: Seq<char>, d: Seq<char>) -> Seq<u8> {
    head + encode_utf8(p) + ": ".spec_bytes() + encode_utf8(d)
}

/// The bytes of the one-line description of `e`.
pub open spec fn spec_message(e: Error) -> Seq<u8>
    decreases e,
{
    match e {
        Error::OpenInputPath(p, d) => spec_part("failed to open input path: ".spec_bytes(), p@, d@),
        Error::CreateOutputDirectory(p, d) => spec_part(
            "failed to create output directory: ".spec_bytes(),
            p@,
            d@,
        ),
        Error::CreateOutputFile(p, d) => spec_part(
            "failed to create output file: ".spec_bytes(),
            p@,
            d@,
        ),
        Error::ReadInputChunk(p, d) => spec_part("failed to read input chunk: ".spec_bytes(), p@, d@),
        Error::WriteOutputChunk(p, inner) => "failed to write output chunk: ".spec_bytes()
            + encode_utf8(p@) + ": ".spec_bytes() + spec_message(*inner),
        Error::WriteOutputFileChunk(p, d) => spec_part(
            "failed to write output file chunk: ".spec_bytes(),
            p@,
            d@,
        ),
        Error::RewriteTemplate(_p, inner) => "failed to rewrite the template: ".spec_bytes()
            + spec_message(*inner),
        Error::FlushOutputFile(p, d) => spec_part(
            "failed to flush output file: ".spec_bytes(),
            p@,
            d@,
        ),
        Error::InvalidHtmsAttribute { tag, offset } => "invalid attribute '".spec_bytes() + tag@
            + "[data-htms]' at byte offset ".spec_bytes() + spec_decimal(offset as nat)
            + ": expected a valid identifier".spec_bytes(),
        Error::IncludeFragment { tag, path, offset, detail } => "failed to include fragment '".spec_bytes()
            + tag@ + "[data-htms=\"".spec_bytes() + path@ + "\"]' at byte offset ".spec_bytes()
            + spec_decimal(offset as nat) + ": ".spec_bytes() + encode_utf8(detail@),
    }
}

impl Error {
    /// The one-line description of this error, as bytes.
    pub fn message_bytes(&self) -> (r: Vec<u8>)
        ensures
            r@ == spec_message(*self),
        decreases *self,
    {
        match self {
            Error::OpenInputPath(p, d) => part_vec(
                "failed to open input path: ".as_bytes_vec(),
                p,
                d,
            ),
            Error::CreateOutputDirectory(p, d) => part_vec(
                "failed to create output directory: ".as_bytes_vec(),
                p,
                d,
            ),
            Error::CreateOutputFile(p, d) => part_vec(
                "failed to create output file: ".as_bytes_vec(),
                p,
                d,
            ),
            Error::ReadInputChunk(p, d) => part_vec(
                "failed to read input chunk: ".as_bytes_vec(),
                p,
                d,
            ),
            Error::WriteOutputChunk(p, inner) => {
                let mut v = "failed to write output chunk: ".as_bytes_vec();
                let pb = p.as_str().as_bytes_vec();
                push_all(&mut v, &pb);
                let sep = ": ".as_bytes_vec();
                push_all(&mut v, &sep);
                let ib = inner.message_bytes();
                push_all(&mut v, &ib);
                proof {
                    assert(v@ =~= spec_message(*self));
                }
                v
            },
            Error::WriteOutputFileChunk(p, d) => part_vec(
                "failed to write output file chunk: ".as_bytes_vec(),
                p,
                d,
            ),
            Error::RewriteTemplate(_p, inner) => {
                let mut v = "failed to rewrite the template: ".as_bytes_vec();
                let ib = inner.message_bytes();
                push_all(&mut v, &ib);
                proof {
                    assert(v@ =~= spec_message(*self));
                }
                v
            },
            Error::FlushOutputFile(p, d) => part_vec(
                "failed to flush output file: ".as_bytes_vec(),
                p,
                d,
            ),
            Error::InvalidHtmsAttribute { tag, offset } => {
                let mut v = "invalid attribute '".as_bytes_vec();
                push_all(&mut v, tag);
                let mid = "[data-htms]' at byte offset ".as_bytes_vec();
                push_all(&mut v, &mid);
                push_decimal(&mut v, *offset);
                let tail = ": expected a valid identifier".as_bytes_vec();
                push_all(&mut v, &tail);
                proof {
                    assert(v@ =~= spec_message(*self));
                }
                v
            },
            Error::IncludeFragment { tag, path, offset, detail } => {
                let mut v = "failed to include fragment '".as_bytes_vec();
                push_all(&mut v, tag);
                let mid = "[data-htms=\"".as_bytes_vec();
                push_all(&mut v, &mid);
                push_all(&mut v, path);
                let mid2 = "\"]' at byte offset ".as_bytes_vec();
                push_all(&mut v, &mid2);
                push_decimal(&mut v, *offset);
                let sep = ": ".as_bytes_vec();
                push_all(&mut v, &sep);
                let db = detail.as_str().as_bytes_vec();
                push_all(&mut v, &db);
                proof {
                    assert(v@ =~= spec_message(*self));
                }
                v
            },
        }
    }

    /// The one-line description of this error. Exact whenever the
    /// description's bytes are ASCII.
    pub fn message(&self) -> (r: String)
        ensures
            spec_ascii_bytes(spec_message(*self)) ==> r@ == spec_ascii_chars(spec_message(*self)),
    {
        let b = self.message_bytes();
        bytes_to_string(&b)
    }
}

/// Builds `<head>: <path>: <detail>`.
fn part_vec(head: Vec<u8>, p: &String, d: &String) -> (r: Vec<u8>)
    ensures
        r@ == spec_part(head@, p@, d@),
{
    let mut v = head;
    let pb = p.as_str().as_bytes_vec();
    push_all(&mut v, &pb);
    let sep = ": ".as_bytes_vec();
    push_all(&mut v, &sep);
    let db = d.as_str().as_bytes_vec();
    push_all(&mut v, &db);
    proof {
        assert(v@ =~= spec_part(head@, p@, d@));
    }
    v
}


/// The ordered collection of distinct task names a build found.
pub type TaskNames = Vec<String>;

/// The result of a successful build: whether the template has a root
/// container, and the distinct task names its `fn:` markers reference, in
/// first-reference order.
pub struct Build {
    /// Whether a root container (`html` element) was seen.
    pub has_html_tag: bool,
    /// The distinct task names referenced by `fn:` markers.
    pub task_names: TaskNames,
}

impl Build {
    /// Whether the template has a root container.
    pub fn has_html_tag(&self) -> (r: bool)
        ensures
            r == self.has_html_tag,
    {
        self.has_html_tag
    }

    /// The distinct task names referenced by the template.
    pub fn task_names(&self) -> (r: &TaskNames)
        ensures
            r == &self.task_names,
    {
        &self.task_names
    }
}

/// The paths of the `include:` markers that the resolution pass will
/// process, in order of occurrence; markers inside a replaced element are
/// not listed, since the pass never reads them.
pub open spec fn spec_scan_includes(s: Seq<u8>, pos: int) -> Seq<Seq<u8>>
    decreases s.len() - pos,
    via spec_scan_includes_decreases
{
    if pos < 0 || pos >= s.len() {
        Seq::empty()
    } else if s[pos] != LT || pos + 1 >= s.len() {
        spec_scan_includes(s, pos + 1)
    } else if s[pos + 1] == BANG || s[pos + 1] == QUESTION {
        spec_scan_includes(s, spec_decl_end(s, pos))
    } else if s[pos + 1] == SLASH {
        spec_scan_includes(s, spec_parse_close(s, pos).end)
    } else if spec_letter(s[pos + 1]) {
        let t = spec_parse_open(s, pos);
        match t.dh {
            Some((a, b)) => {
                if b - a >= 8 && s.subrange(a, a + 8) == spec_include_prefix() {
                    let path = s.subrange(a + 8, spec_trim_end(s, a + 8, b));
                    let lname = spec_lower_range(s, t.name_start, t.name_end);
                    let e = if t.self_closing {
                        t.end
                    } else {
                        spec_elem_end(s, t.end, lname, 0)
                    };
                    seq![path] + spec_scan_includes(s, e)
                } else {
                    spec_scan_includes(s, t.end)
                }
            },
            None => spec_scan_includes(s, t.end),
        }
    } else {
        spec_scan_includes(s, pos + 1)
    }
}

#[via_fn]
proof fn spec_scan_includes_decreases(s: Seq<u8>, pos: int) {
    if 0 <= pos < s.len() && s[pos] == LT && pos + 1 < s.len() {
        if s[pos + 1] == BANG || s[pos + 1] == QUESTION {
            lemma_decl_end_bounds(s, pos);
        } else if s[pos + 1] == SLASH {
            lemma_parse_close_bounds(s, pos);
        } else if spec_letter(s[pos + 1]) {
            lemma_parse_open_bounds(s, pos);
            let t = spec_parse_open(s, pos);
            let lname = spec_lower_range(s, t.name_start, t.name_end);
            lemma_elem_end_bounds(s, t.end, lname, 0);
        }
    }
}

fn scan_includes_from(s: &Vec<u8>, pos: usize, acc: Vec<Vec<u8>>, pats: &Pats) -> (r: Vec<Vec<u8>>)
    requires
        pos <= s@.len(),
        spec_pats_wf(pats),
    ensures
        spec_names_view(r@) == spec_names_view(acc@) + spec_scan_includes(s@, pos as int),
    decreases s@.len() - pos,
{
    let mut acc = acc;
    let ghost acc0 = spec_names_view(acc@);
    if pos >= s.len() {
        proof {
            assert(spec_names_view(acc@) =~= acc0 + spec_scan_includes(s@, pos as int));
        }
        acc
    } else if s[pos] != LT || pos + 1 >= s.len() {
        scan_includes_from(s, pos + 1, acc, pats)
    } else if s[pos + 1] == BANG || s[pos + 1] == QUESTION {
        let e = decl_end(s, pos);
        scan_includes_from(s, e, acc, pats)
    } else if s[pos + 1] == SLASH {
        let c = parse_close(s, pos);
        scan_includes_from(s, c.end, acc, pats)
    } else if crate::bytes_util::is_letter(s[pos + 1]) {
        let t = parse_open(s, pos, &pats.dh);
        let mut is_inc = false;
        if t.has_dh && t.dh_end - t.dh_start >= 8 {
            is_inc = range_eq(s, t.dh_start, t.dh_start + 8, &pats.inc);
        }
        if is_inc {
            let a = t.dh_start;
            let b = t.dh_end;
            let pend = trim_end(s, a + 8, b);
            let mut path: Vec<u8> = Vec::new();
            push_range(&mut path, s, a + 8, pend);
            proof {
                assert(path@ =~= s@.subrange(a + 8, spec_trim_end(s@, a as int + 8, b as int)));
            }
            let e = if t.self_closing {
                t.end
            } else {
                let mut lname: Vec<u8> = Vec::new();
                crate::bytes_util::push_lower_range(&mut lname, s, t.name_start, t.name_end);
                proof {
                    assert(lname@ =~= spec_lower_range(
                        s@,
                        t.name_start as int,
                        t.name_end as int,
                    ));
                }
                elem_end(s, t.end, &lname, 0, &pats.dh)
            };
            let ghost pv = path@;
            acc.push(path);
            proof {
                assert(spec_names_view(acc@) =~= acc0 + seq![pv]);
            }
            let r = scan_includes_from(s, e, acc, pats);
            proof {
                assert(spec_names_view(r@) =~= acc0 + spec_scan_includes(s@, pos as int));
            }
            r
        } else {
            scan_includes_from(s, t.end, acc, pats)
        }
    } else {
        scan_includes_from(s, pos + 1, acc, pats)
    }
}

/// Lists the paths of the `include:` markers that a build of `input` will
/// resolve, in order of occurrence. A caller reads each listed file and
/// hands the results to `build_template`.
pub fn scan_includes(input: &Vec<u8>) -> (r: Vec<Vec<u8>>)
    ensures
        spec_names_view(r@) == spec_scan_includes(input@, 0),
{
    let pats = make_pats();
    let r = scan_includes_from(input, 0, Vec::new(), &pats);
    proof {
        assert(spec_names_view(r@) =~= spec_scan_includes(input@, 0));
    }
    r
}

/// Whether `e` is the error that reports the failed include `ie` of the
/// template at `input_path`.
pub open spec fn spec_is_include_failure(e: Error, input_path: Seq<char>, ie: SpecIncludeErr) -> bool {
    match e {
        Error::RewriteTemplate(p, inner) => p@ == input_path && match *inner {
            Error::IncludeFragment { tag, path, offset, detail } => {
                &&& tag@ == ie.tag
                &&& path@ == ie.path
                &&& offset as int == ie.offset
                &&& detail@ == ie.detail
            },
            _ => false,
        },
        _ => false,
    }
}

/// Whether `e` is the error that reports the rejected `fn:` marker `ae`
/// found while writing the rewritten template to `output_path`.
pub open spec fn spec_is_attr_failure(e: Error, output_path: Seq<char>, ae: SpecAttrErr) -> bool {
    match e {
        Error::WriteOutputChunk(p, inner) => p@ == output_path && match *inner {
            Error::InvalidHtmsAttribute { tag, offset } => tag@ == ae.tag && offset as int
                == ae.offset,
            _ => false,
        },
        _ => false,
    }
}

/// Whether the strings `v` spell exactly the byte names `names`.
pub open spec fn spec_names_strings(v: Seq<String>, names: Seq<Seq<u8>>) -> bool {
    &&& v.len() == names.len()
    &&& forall|i: int| 0 <= i < v.len() ==> #[trigger] v[i]@ == spec_ascii_chars(names[i])
}

/// What `build_template` returns, stated over the two passes: the include
/// error of the resolution pass (wrapped, naming the input path), otherwise
/// the marker error of the binding pass (wrapped, naming the output path),
/// otherwise the rewritten bytes and the build result of the binding pass.
pub open spec fn spec_build_matches(
    r: Result<(Vec<u8>, Build), Error>,
    input_path: Seq<char>,
    output_path: Seq<char>,
    s: Seq<u8>,
    files: Seq<crate::passes::IncludeFileV>,
) -> bool {
    match spec_pass1(s, files, 0, Seq::empty()) {
        Err(ie) => r matches Err(e) && spec_is_include_failure(e, input_path, ie),
        Ok(mid) => match spec_pass2(mid, 0, spec_p2_init()) {
            Err(ae) => r matches Err(e) && spec_is_attr_failure(e, output_path, ae),
            Ok(g) => r matches Ok(ob) && ob.0@ == g.out && ob.1.has_html_tag == g.has_html
                && spec_names_strings(ob.1.task_names@, g.names),
        },
    }
}

proof fn lemma_ascii_chars_injective(x: Seq<u8>, y: Seq<u8>)
    requires
        spec_ascii_chars(x) == spec_ascii_chars(y),
    ensures
        x == y,
{
    assert(spec_ascii_chars(x).len() == x.len());
    assert(spec_ascii_chars(y).len() == y.len());
    assert forall|i: int| 0 <= i < x.len() implies x[i] == y[i] by {
        assert(spec_ascii_chars(x)[i] == x[i] as char);
        assert(spec_ascii_chars(y)[i] == y[i] as char);
        assert(x[i] as char == y[i] as char);
        assert((x[i] as char) as int == x[i] as int);
        assert((y[i] as char) as int == y[i] as int);
    }
    assert(x =~= y);
}

/// Converts validated identifier names to strings, one character per byte.
fn names_to_strings(names: Vec<Vec<u8>>) -> (r: Vec<String>)
    requires
        forall|i: int|
            0 <= i < names@.len() ==> spec_valid_ident(#[trigger] spec_names_view(names@)[i]),
    ensures
        spec_names_strings(r@, spec_names_view(names@)),
{
    let mut r: Vec<String> = Vec::new();
    let mut i: usize = 0;
    while i < names.len()
        invariant
            0 <= i <= names@.len(),
            r@.len() == i,
            forall|i2: int|
                0 <= i2 < names@.len() ==> spec_valid_ident(
                    #[trigger] spec_names_view(names@)[i2],
                ),
            forall|j: int|
                0 <= j < i ==> #[trigger] r@[j]@ == spec_ascii_chars(spec_names_view(names@)[j]),
        decreases names@.len() - i,
    {
        proof {
            let nb = names@[i as int]@;
            assert(spec_valid_ident(spec_names_view(names@)[i as int]));
            assert(spec_names_view(names@)[i as int] == nb);
            assert forall|k: int| 0 <= k < nb.len() implies #[trigger] nb[k] < 128 by {
                assert(crate::ident::spec_ident_byte(nb[k]));
            }
            assert(spec_ascii_bytes(nb));
        }
        let s = bytes_to_string(&names[i]);
        r.push(s);
        i += 1;
    }
    r
}

/// Builds a template: resolves its `include:` markers from `files`, then
/// records the root container, injects the fixed style and script blocks,
/// drops the root's and the body's closing tags, validates and normalizes
/// the `fn:` markers and collects the distinct task names. The paths name
/// the template's source and destination in errors; no file is touched
/// here. Task names are returned in first-reference order, without
/// duplicates.
pub fn build_template(
    input_path: &str,
    output_path: &str,
    input: &Vec<u8>,
    files: &Vec<IncludeFile>,
) -> (r: Result<(Vec<u8>, Build), Error>)
    ensures
        spec_build_matches(r, input_path@, output_path@, input@, spec_files_view(files@)),
        r matches Ok(ob) ==> forall|i: int, j: int|
            0 <= i < j < ob.1.task_names@.len() ==> ob.1.task_names@[i]@ !== ob.1.task_names@[j]@,
{
    let pats = make_pats();
    let expanded = match pass1(input, files, 0, Vec::new(), &pats) {
        Ok(v) => v,
        Err(ie) => {
            let inner = Error::IncludeFragment {
                tag: ie.tag,
                path: ie.path,
                offset: ie.offset,
                detail: ie.detail,
            };
            return Err(
                Error::RewriteTemplate(
                    String::from_str(input_path),
                    Box::new(inner),
                ),
            );
        },
    };
    let st = make_build_st();
    let g2 = match pass2(&expanded, 0, st, &pats) {
        Ok(v) => v,
        Err(ae) => {
            let inner = Error::InvalidHtmsAttribute { tag: ae.tag, offset: ae.offset };
            return Err(
                Error::WriteOutputChunk(
                    String::from_str(output_path),
                    Box::new(inner),
                ),
            );
        },
    };
    proof {
        lemma_pass2_names(expanded@, 0, spec_p2_init());
        assert(spec_names_ok(g2@.names));
    }
    let ghost names_bytes = spec_names_view(g2.names@);
    let task_names = names_to_strings(g2.names);
    proof {
        assert forall|i: int, j: int| 0 <= i < j < task_names@.len() implies task_names@[i]@
            !== task_names@[j]@ by {
            if task_names@[i]@ == task_names@[j]@ {
                lemma_ascii_chars_injective(names_bytes[i], names_bytes[j]);
            }
        }
    }
    let build = Build { has_html_tag: g2.has_html, task_names };
    Ok((g2.out, build))
}

} // verus!
