//! Renders documentation-page markup as readable plain text.
//!
//! The pipeline has three stages: a content extractor that isolates the
//! subtree holding the documentation body, a text renderer that walks that
//! subtree and emits linear text with block-element spacing, and a
//! whitespace normalizer that collapses excess blank lines.

use vstd::prelude::*;

pub mod config;
pub mod dom;
pub mod extract;
pub mod lines;
pub mod normalize;
pub mod parse;
pub mod render;

use crate::extract::extract;
use crate::extract::is_content_root;
use crate::extract::spec_doc_of;
use crate::extract::spec_first_root;
use crate::extract::ExtractError;
use crate::normalize::clean_markdown;
use crate::normalize::spec_normalize;
use crate::render::render;
use crate::render::spec_render_node;

verus! {

/// The full rendering pipeline: isolate the content subtree of the given
/// markup, render it to raw linear text, and collapse excess blank lines.
/// Fails exactly when no element carries the content-root marker.
pub fn process_html_content(html: &str) -> (r: Result<String, ExtractError>)
    ensures
        match r {
            Ok(text) => {
                &&& spec_first_root(spec_doc_of(html@)) < spec_doc_of(html@).len()
                &&& text@ == spec_normalize(
                    spec_render_node(spec_doc_of(html@), spec_first_root(spec_doc_of(html@))),
                )
            },
            Err(e) => {
                &&& e == ExtractError::NotFound
                &&& forall|j: int|
                    0 <= j < spec_doc_of(html@).len() ==> !is_content_root(
                        #[trigger] spec_doc_of(html@)[j],
                    )
            },
        },
{
    let root = match extract(html) {
        Ok(cr) => cr,
        Err(e) => {
            return Err(e);
        },
    };
    let raw = render(&root);
    Ok(clean_markdown(raw.as_str()))
}

} // verus!
