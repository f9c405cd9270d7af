//! Render-engine core: the fragment wrapper and the chunk sequence.
//!
//! A render of a page emits the rewritten template first, then one wrapped
//! chunk per completed task in completion order, then an optional final
//! chunk. The asynchronous driving loop lives outside the library; the
//! functions here pin down exactly which bytes each chunk holds.

use vstd::prelude::*;
use vstd::string::StrSliceExecFns;
use vstd::string::StringExecFns;

verus! {

/// One completed task: its identifier and the HTML text it produced.
pub struct TaskResult {
    /// The task's identifier, matching the `data-htms` region it fills.
    pub id: String,
    /// The HTML fragment the task produced.
    pub html: String,
}

/// The characters of the fragment wrapper built from a task identifier and
/// its HTML output: a `<htms-chunk>` element targeting the identifier,
/// terminated by a newline.
pub open spec fn spec_response(id: Seq<char>, html: Seq<char>) -> Seq<char> {
    "<htms-chunk target=\""@ + id + "\">"@ + html + "</htms-chunk>\n"@
}

/// The fragment wrapper as bytes.
pub open spec fn spec_response_bytes(id: Seq<char>, html: Seq<char>) -> Seq<u8> {
    vstd::utf8::encode_utf8(spec_response(id, html))
}

/// Builds the fragment wrapper for one task result: a self-contained markup
/// unit that the client-side delivery script routes into the region tagged
/// `id`, terminated by a newline.
pub fn response(id: &str, html: &str) -> (r: String)
    ensures
        r@ == spec_response(id@, html@),
{
    let mut r = String::from_str("<htms-chunk target=\"");
    r.append(id);
    r.append("\">");
    r.append(html);
    r.append("</htms-chunk>\n");
    r
}

/// Builds the fragment wrapper for one task result, as bytes.
pub fn response_chunk(id: &str, html: &str) -> (r: Vec<u8>)
    ensures
        r@ == spec_response_bytes(id@, html@),
{
    let s = response(id, html);
    let r = s.as_str().as_bytes_vec();
    proof {
        assert(r@ =~= spec_response_bytes(id@, html@));
    }
    r
}

/// Assembles the full chunk sequence of one render: the template bytes
/// first, then one wrapped chunk per task result in the given (completion)
/// order, then the final chunk if one is configured. At least one chunk is
/// always emitted, even when the template is empty.
pub fn render_chunks(template: Vec<u8>, results: &Vec<TaskResult>, final_chunk: Option<Vec<u8>>) -> (
    chunks: Vec<Vec<u8>>)
    ensures
        chunks@.len() == 1 + results@.len() + (if final_chunk is Some {
            1int
        } else {
            0int
        }),
        chunks@.len() >= 1,
        chunks@[0]@ == template@,
        forall|i: int|
            0 <= i < results@.len() ==> chunks@[i + 1]@ == spec_response_bytes(
                results@[i].id@,
                results@[i].html@,
            ),
        final_chunk matches Some(fc) ==> chunks@.last()@ == fc@,
{
    let mut chunks: Vec<Vec<u8>> = Vec::new();
    chunks.push(template);
    let mut i: usize = 0;
    while i < results.len()
        invariant
            0 <= i <= results@.len(),
            chunks@.len() == 1 + i,
            chunks@[0]@ == template@,
            forall|j: int|
                0 <= j < i ==> chunks@[j + 1]@ == spec_response_bytes(
                    results@[j].id@,
                    results@[j].html@,
                ),
        decreases results@.len() - i,
    {
        let c = response_chunk(results[i].id.as_str(), results[i].html.as_str());
        chunks.push(c);
        i += 1;
    }
    match final_chunk {
        Some(fc) => {
            chunks.push(fc);
        },
        None => {},
    }
    chunks
}

} // verus!
