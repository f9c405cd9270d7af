//! A wrapper marking a stream of byte chunks as a streamed HTML document.
//!
//! The wrapped value is the chunk source produced by a render. An HTTP
//! adapter unwraps it and serves the chunks as `text/html; charset=utf-8`
//! with chunked transfer framing; the library itself never performs I/O.

use vstd::prelude::*;

verus! {

/// A stream of HTML byte chunks, ready to be served.
pub struct HtmlStream<S>(pub S);

impl<S> HtmlStream<S> {
    /// Wraps a chunk source.
    pub fn new(inner: S) -> (r: Self)
        ensures
            r.0 == inner,
    {
        HtmlStream(inner)
    }

    /// Hands the chunk source back.
    pub fn into_inner(self) -> (r: S)
        ensures
            r == self.0,
    {
        self.0
    }
}

} // verus!
