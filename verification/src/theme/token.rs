//! Semantic tokens and source spans: the vocabulary every grammar emits
//! for syntax coloring.

use vstd::prelude::*;

verus! {

/// A half-open `[start, end)` offset range into the tokenized source,
/// counted in Unicode scalar values.
#[derive(Clone, Copy, Debug, PartialEq, Eq, Structural)]
pub struct SourceSpan {
    /// First offset of the span.
    pub start: usize,
    /// One past the last offset of the span.
    pub end: usize,
}

impl SourceSpan {
    /// The span `[start, end)`.
    pub fn new(start: usize, end: usize) -> (r: SourceSpan)
        ensures
            r.start == start,
            r.end == end,
    {
        SourceSpan { start, end }
    }
}

/// Generic tokens that can be used to support colorization directly from
/// a lexer.
#[derive(Clone, Debug)]
pub enum Token {
    Keyword,
    Bracket,
    Operator,
    Modifier,
    Identifier,
    Literal,
    Comment,
    Whitespace,
    Newline,
    Custom(String),
}

/// The mathematical value of a [`Token`].
pub enum TokenV {
    Keyword,
    Bracket,
    Operator,
    Modifier,
    Identifier,
    Literal,
    Comment,
    Whitespace,
    Newline,
    Custom(Seq<char>),
}

impl View for Token {
    type V = TokenV;

    open spec fn view(&self) -> TokenV {
        match self {
            Token::Keyword => TokenV::Keyword,
            Token::Bracket => TokenV::Bracket,
            Token::Operator => TokenV::Operator,
            Token::Modifier => TokenV::Modifier,
            Token::Identifier => TokenV::Identifier,
            Token::Literal => TokenV::Literal,
            Token::Comment => TokenV::Comment,
            Token::Whitespace => TokenV::Whitespace,
            Token::Newline => TokenV::Newline,
            Token::Custom(name) => TokenV::Custom(name@),
        }
    }
}

impl Token {
    /// An owned copy of this token.
    pub fn duplicate(&self) -> (r: Token)
        ensures
            r@ == self@,
    {
        match self {
            Token::Keyword => Token::Keyword,
            Token::Bracket => Token::Bracket,
            Token::Operator => Token::Operator,
            Token::Modifier => Token::Modifier,
            Token::Identifier => Token::Identifier,
            Token::Literal => Token::Literal,
            Token::Comment => Token::Comment,
            Token::Whitespace => Token::Whitespace,
            Token::Newline => Token::Newline,
            Token::Custom(s) => Token::Custom(s.clone()),
        }
    }
}

impl PartialEq for Token {
    /// Two tokens are equal when they are the same kind, and for custom
    /// tokens carry the same name.
    fn eq(&self, other: &Token) -> (r: bool) {
        match (self, other) {
            (Token::Keyword, Token::Keyword) => true,
            (Token::Bracket, Token::Bracket) => true,
            (Token::Operator, Token::Operator) => true,
            (Token::Modifier, Token::Modifier) => true,
            (Token::Identifier, Token::Identifier) => true,
            (Token::Literal, Token::Literal) => true,
            (Token::Comment, Token::Comment) => true,
            (Token::Whitespace, Token::Whitespace) => true,
            (Token::Newline, Token::Newline) => true,
            (Token::Custom(a), Token::Custom(b)) => *a == *b,
            _ => false,
        }
    }
}

impl Eq for Token {

}

impl vstd::std_specs::cmp::PartialEqSpecImpl for Token {
    open spec fn obeys_eq_spec() -> bool {
        true
    }

    open spec fn eq_spec(&self, other: &Token) -> bool {
        self@ == other@
    }
}

/// A token paired with the span it covers, if the grammar tagged one.
pub type ThemeToken = (Token, Option<SourceSpan>);

/// The mathematical value of a [`ThemeToken`].
pub open spec fn theme_token_view(t: ThemeToken) -> (TokenV, Option<SourceSpan>) {
    (t.0@, t.1)
}

/// The views of a sequence of theme tokens.
pub open spec fn theme_tokens_view(ts: Seq<ThemeToken>) -> Seq<(TokenV, Option<SourceSpan>)> {
    ts.map_values(|t: ThemeToken| theme_token_view(t))
}

/// Every tagged span lies within `[lo, len)`, spans are well formed, and
/// they appear in non-decreasing order.
pub open spec fn spans_wf(ts: Seq<(TokenV, Option<SourceSpan>)>, lo: int, len: int) -> bool
    decreases ts.len(),
{
    if ts.len() == 0 {
        true
    } else {
        match ts[0].1 {
            Some(sp) => lo <= sp.start <= sp.end <= len && spans_wf(
                ts.drop_first(),
                sp.end as int,
                len,
            ),
            None => spans_wf(ts.drop_first(), lo, len),
        }
    }
}

/// Where the last tagged span ends, or `dflt` if none is tagged.
pub open spec fn tokens_end(ts: Seq<(TokenV, Option<SourceSpan>)>, dflt: int) -> int
    decreases ts.len(),
{
    if ts.len() == 0 {
        dflt
    } else {
        match ts[0].1 {
            Some(sp) => tokens_end(ts.drop_first(), sp.end as int),
            None => tokens_end(ts.drop_first(), dflt),
        }
    }
}

/// `x` forced into `[lo, hi]`.
pub open spec fn clamp_int(x: int, lo: int, hi: int) -> int {
    if x < lo {
        lo
    } else if x > hi {
        hi
    } else {
        x
    }
}

/// The token stream with every tagged span forced into bounds and into
/// non-decreasing order, so that a renderer can walk it without gaps
/// running backwards.
pub open spec fn normalize_spans(
    ts: Seq<(TokenV, Option<SourceSpan>)>,
    floor: int,
    len: int,
) -> Seq<(TokenV, Option<SourceSpan>)>
    decreases ts.len(),
{
    if ts.len() == 0 {
        Seq::empty()
    } else {
        match ts[0].1 {
            None => seq![(ts[0].0, None::<SourceSpan>)] + normalize_spans(
                ts.drop_first(),
                floor,
                len,
            ),
            Some(sp) => {
                let st = clamp_int(sp.start as int, floor, len);
                let en = clamp_int(sp.end as int, st, len);
                seq![(ts[0].0, Some(SourceSpan { start: st as usize, end: en as usize }))]
                    + normalize_spans(ts.drop_first(), en, len)
            },
        }
    }
}

/// The end of a well-formed stream stays within bounds.
pub proof fn lemma_tokens_end_bounds(ts: Seq<(TokenV, Option<SourceSpan>)>, lo: int, len: int)
    requires
        0 <= lo <= len,
        spans_wf(ts, lo, len),
    ensures
        lo <= tokens_end(ts, lo) <= len,
    decreases ts.len(),
{
    if ts.len() > 0 {
        match ts[0].1 {
            Some(sp) => {
                lemma_tokens_end_bounds(ts.drop_first(), sp.end as int, len);
            },
            None => {
                lemma_tokens_end_bounds(ts.drop_first(), lo, len);
            },
        }
    }
}

/// Normalized spans are well formed, and their last end stays in bounds.
pub proof fn lemma_normalize_wf(ts: Seq<(TokenV, Option<SourceSpan>)>, floor: int, len: int)
    requires
        0 <= floor <= len <= usize::MAX,
    ensures
        spans_wf(normalize_spans(ts, floor, len), floor, len),
        floor <= tokens_end(normalize_spans(ts, floor, len), floor) <= len,
    decreases ts.len(),
{
    let norm = normalize_spans(ts, floor, len);
    if ts.len() == 0 {
    } else {
        match ts[0].1 {
            None => {
                lemma_normalize_wf(ts.drop_first(), floor, len);
                assert(norm.drop_first() =~= normalize_spans(ts.drop_first(), floor, len));
            },
            Some(sp) => {
                let st = clamp_int(sp.start as int, floor, len);
                let en = clamp_int(sp.end as int, st, len);
                lemma_normalize_wf(ts.drop_first(), en, len);
                assert(norm.drop_first() =~= normalize_spans(ts.drop_first(), en, len));
            },
        }
    }
}

/// Appending a trailing span that starts where the stream ends and runs
/// to `len` keeps the stream well formed and moves its end to `len`.
pub proof fn lemma_append_trailing(
    ts: Seq<(TokenV, Option<SourceSpan>)>,
    lo: int,
    len: int,
    t: TokenV,
)
    requires
        0 <= lo <= len <= usize::MAX,
        spans_wf(ts, lo, len),
    ensures
        ({
            let e = tokens_end(ts, lo);
            let tail = (t, Some(SourceSpan { start: e as usize, end: len as usize }));
            &&& spans_wf(ts + seq![tail], lo, len)
            &&& tokens_end(ts + seq![tail], lo) == len
        }),
    decreases ts.len(),
{
    lemma_tokens_end_bounds(ts, lo, len);
    let e = tokens_end(ts, lo);
    let tail = (t, Some(SourceSpan { start: e as usize, end: len as usize }));
    if ts.len() == 0 {
        assert(ts + seq![tail] =~= seq![tail]);
        assert((ts + seq![tail]).drop_first() =~= Seq::<(TokenV, Option<SourceSpan>)>::empty());
        assert(spans_wf(Seq::<(TokenV, Option<SourceSpan>)>::empty(), len, len));
        assert(tokens_end(Seq::<(TokenV, Option<SourceSpan>)>::empty(), len) == len);
        assert((ts + seq![tail])[0] == tail);
        assert(spans_wf(ts + seq![tail], lo, len));
        assert(tokens_end(ts + seq![tail], lo) == len);
    } else {
        assert((ts + seq![tail])[0] == ts[0]);
        assert((ts + seq![tail]).drop_first() =~= ts.drop_first() + seq![tail]);
        match ts[0].1 {
            Some(sp) => {
                assert(tokens_end(ts, lo) == tokens_end(ts.drop_first(), sp.end as int));
                lemma_append_trailing(ts.drop_first(), sp.end as int, len, t);
                assert(spans_wf(ts.drop_first() + seq![tail], sp.end as int, len));
                assert(spans_wf(ts + seq![tail], lo, len));
                assert(tokens_end(ts + seq![tail], lo) == len);
            },
            None => {
                assert(tokens_end(ts, lo) == tokens_end(ts.drop_first(), lo));
                lemma_append_trailing(ts.drop_first(), lo, len, t);
                assert(spans_wf(ts.drop_first() + seq![tail], lo, len));
                assert(spans_wf(ts + seq![tail], lo, len));
                assert(tokens_end(ts + seq![tail], lo) == len);
            },
        }
    }
}

/// Where the last tagged span of `ts[i..]` ends, or `dflt`.
pub fn tokens_end_exec(ts: &Vec<ThemeToken>, i: usize, dflt: usize) -> (r: usize)
    requires
        i <= ts@.len(),
    ensures
        r as int == tokens_end(theme_tokens_view(ts@).skip(i as int), dflt as int),
    decreases ts@.len() - i,
{
    let ghost rest = theme_tokens_view(ts@).skip(i as int);
    if i >= ts.len() {
        proof {
            assert(rest =~= Seq::<(TokenV, Option<SourceSpan>)>::empty());
        }
        return dflt;
    }
    proof {
        assert(rest[0] == theme_token_view(ts@[i as int]));
        assert(rest.drop_first() =~= theme_tokens_view(ts@).skip(i as int + 1));
    }
    match &ts[i].1 {
        Some(sp) => {
            let d = sp.end;
            tokens_end_exec(ts, i + 1, d)
        },
        None => tokens_end_exec(ts, i + 1, dflt),
    }
}

/// Appends `ts[i..]` to `out`, spans normalized.
pub fn normalize_from(
    ts: &Vec<ThemeToken>,
    i: usize,
    floor: usize,
    len: usize,
    out: &mut Vec<ThemeToken>,
)
    requires
        i <= ts@.len(),
        floor <= len,
    ensures
        theme_tokens_view(final(out)@) == theme_tokens_view(old(out)@) + normalize_spans(
            theme_tokens_view(ts@).skip(i as int),
            floor as int,
            len as int,
        ),
    decreases ts@.len() - i,
{
    let ghost rest = theme_tokens_view(ts@).skip(i as int);
    if i >= ts.len() {
        proof {
            assert(rest =~= Seq::<(TokenV, Option<SourceSpan>)>::empty());
            assert(theme_tokens_view(out@) =~= theme_tokens_view(old(out)@) + normalize_spans(
                rest,
                floor as int,
                len as int,
            ));
        }
        return ;
    }
    proof {
        assert(rest[0] == theme_token_view(ts@[i as int]));
        assert(rest.drop_first() =~= theme_tokens_view(ts@).skip(i as int + 1));
    }
    let tok = ts[i].0.duplicate();
    match &ts[i].1 {
        Some(sp) => {
            let st = if sp.start < floor {
                floor
            } else if sp.start > len {
                len
            } else {
                sp.start
            };
            let en = if sp.end < st {
                st
            } else if sp.end > len {
                len
            } else {
                sp.end
            };
            out.push((tok, Some(SourceSpan::new(st, en))));
            normalize_from(ts, i + 1, en, len, out);
            proof {
                assert(theme_tokens_view(out@) =~= theme_tokens_view(old(out)@) + normalize_spans(
                    rest,
                    floor as int,
                    len as int,
                ));
            }
        },
        None => {
            out.push((tok, None));
            normalize_from(ts, i + 1, floor, len, out);
            proof {
                assert(theme_tokens_view(out@) =~= theme_tokens_view(old(out)@) + normalize_spans(
                    rest,
                    floor as int,
                    len as int,
                ));
            }
        },
    }
}

} // verus!
