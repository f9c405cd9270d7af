//! Streaming HTML rendering: a template builder that scans an HTML template
//! for `data-htms` markers and rewrites it for incremental delivery, and a
//! render engine that turns the rewritten template, a set of completed task
//! results and an optional final chunk into an ordered sequence of byte
//! chunks.

pub mod assets;
pub mod bytes_util;
pub mod ident;
pub mod laws;
pub mod passes;
pub mod render;
pub mod scan;
pub mod stream;
pub mod template;
pub mod text;

pub use render::render_chunks;
pub use render::response;
pub use render::response_chunk;
pub use render::TaskResult;
pub use stream::HtmlStream;
pub use template::build_template;
pub use template::scan_includes;
pub use template::Build;
pub use template::Error;
pub use template::TaskNames;
