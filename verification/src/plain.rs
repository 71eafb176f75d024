//! The plain grammar variant: everything is one literal run.

use vstd::prelude::*;

use crate::theme::ThemeToken;
use crate::theme::Token;
use crate::theme::TokenV;
use crate::theme::theme_tokens_view;

verus! {

/// A grammar variant that assigns no structure to its input.
#[derive(Clone, Copy, Debug, PartialEq, Eq, Structural)]
pub enum Plain {
    /// Ordinary content.
    Normal,
    /// Content the lexer did not recognize; plain text is all of it.
    Error,
}

impl Plain {
    /// The theme tokens this variant stands for: one untagged literal.
    pub fn theme_tokens(&self) -> (r: Vec<ThemeToken>)
        ensures
            theme_tokens_view(r@) == seq![(TokenV::Literal, None::<crate::theme::SourceSpan>)],
    {
        let mut r: Vec<ThemeToken> = Vec::new();
        r.push((Token::Literal, None));
        proof {
            assert(theme_tokens_view(r@) =~= seq![
                (TokenV::Literal, None::<crate::theme::SourceSpan>),
            ]);
        }
        r
    }
}

} // verus!
