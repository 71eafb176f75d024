//! The grammar capability: anything that can turn a source string into
//! span-tagged theme tokens.

use vstd::prelude::*;

use super::token::SourceSpan;
use super::token::ThemeToken;
use super::token::TokenV;
use super::token::spans_wf;
use super::token::theme_tokens_view;

verus! {

/// Trait to apply syntax coloring: a closed parse capability implemented
/// by each grammar variant.
pub trait Grammer {
    /// The tokens this grammar assigns to `content`.
    spec fn parse_spec(&self, content: Seq<char>) -> Seq<(TokenV, Option<SourceSpan>)>;

    /// Parse string content into tokens. Every implementation hands back
    /// exactly its specified tokens, with all tagged spans inside the
    /// source and in non-decreasing order.
    fn parse(&self, content: &str) -> (r: Vec<ThemeToken>)
        ensures
            theme_tokens_view(r@) == self.parse_spec(content@),
            spans_wf(self.parse_spec(content@), 0, content@.len() as int),
    ;
}

} // verus!
