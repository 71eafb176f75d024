//! The theme: a mapping from semantic tokens to colors, and the renderer
//! that turns a tokenized source into a flat list of styled text runs
//! covering the whole source with no gaps.

use vstd::prelude::*;

use crate::color::ColorTheme;
use crate::color::Rgba;
use crate::graph::AttributeV;
use crate::graph::GraphV;
use crate::graph::StateGraph;
use crate::graph::Value;
use crate::graph::ValueV;
use crate::graph::str_eq;

mod default_theme;
mod grammer;
mod token;

pub use default_theme::DefaultTheme;
pub use grammer::Grammer;
pub use token::SourceSpan;
pub use token::ThemeToken;
pub use token::Token;
pub use token::TokenV;
pub use token::clamp_int;
pub use token::lemma_append_trailing;
pub use token::lemma_normalize_wf;
pub use token::lemma_tokens_end_bounds;
pub use token::normalize_from;
pub use token::normalize_spans;
pub use token::spans_wf;
pub use token::theme_token_view;
pub use token::theme_tokens_view;
pub use token::tokens_end;
pub use token::tokens_end_exec;

verus! {

// ---------------------------------------------------------------------------
// Colors for tokens
// ---------------------------------------------------------------------------

/// The color assigned to a token: a concrete color, or the three decimal
/// channel lexemes found in the state graph, left for the consumer to
/// interpret.
#[derive(Clone, Debug, PartialEq)]
pub enum ThemeColor {
    /// A concrete color.
    Fixed(Rgba),
    /// Red, green and blue channel lexemes as written in the graph;
    /// alpha is full.
    Channels(String, String, String),
}

/// The mathematical value of a [`ThemeColor`].
pub enum ThemeColorV {
    Fixed(Rgba),
    Channels(Seq<char>, Seq<char>, Seq<char>),
}

impl View for ThemeColor {
    type V = ThemeColorV;

    open spec fn view(&self) -> ThemeColorV {
        match self {
            ThemeColor::Fixed(c) => ThemeColorV::Fixed(*c),
            ThemeColor::Channels(r, g, b) => ThemeColorV::Channels(r@, g@, b@),
        }
    }
}

impl ThemeColor {
    /// An owned copy of this color.
    pub fn duplicate(&self) -> (r: ThemeColor)
        ensures
            r@ == self@,
    {
        match self {
            ThemeColor::Fixed(c) => ThemeColor::Fixed(*c),
            ThemeColor::Channels(r, g, b) => ThemeColor::Channels(
                r.clone(),
                g.clone(),
                b.clone(),
            ),
        }
    }
}

/// Full white.
pub open spec fn white() -> Rgba {
    Rgba { r: 100000, g: 100000, b: 100000, a: 100000 }
}

/// The color of untagged gap runs: white, mostly opaque.
pub open spec fn gap_color() -> ThemeColorV {
    ThemeColorV::Fixed(Rgba { r: 100000, g: 100000, b: 100000, a: 80000 })
}

/// The latest color set for `t`, if any.
pub open spec fn lookup_color(entries: Seq<(TokenV, ThemeColorV)>, t: TokenV) -> Option<
    ThemeColorV,
>
    decreases entries.len(),
{
    if entries.len() == 0 {
        None
    } else if entries.last().0 == t {
        Some(entries.last().1)
    } else {
        lookup_color(entries.drop_last(), t)
    }
}

/// The color a token renders with: its mapped color, or the default
/// palette's green.
pub open spec fn color_of(entries: Seq<(TokenV, ThemeColorV)>, t: TokenV) -> ThemeColorV {
    match lookup_color(entries, t) {
        Some(c) => c,
        None => ThemeColorV::Fixed(DefaultTheme::spec_green()),
    }
}

// ---------------------------------------------------------------------------
// Styled runs
// ---------------------------------------------------------------------------

/// One styled run: a span of the source and the color to draw it with.
#[derive(Clone, Debug, PartialEq)]
pub struct StyledRun {
    /// The span of the source this run covers.
    pub span: SourceSpan,
    /// The color to draw it with.
    pub color: ThemeColor,
}

/// The mathematical value of a [`StyledRun`].
pub struct StyledRunV {
    pub span: SourceSpan,
    pub color: ThemeColorV,
}

impl View for StyledRun {
    type V = StyledRunV;

    open spec fn view(&self) -> StyledRunV {
        StyledRunV { span: self.span, color: self.color@ }
    }
}

/// The views of a sequence of styled runs.
pub open spec fn runs_view(rs: Seq<StyledRun>) -> Seq<StyledRunV> {
    rs.map_values(|r: StyledRun| r@)
}

/// Each run starts exactly where the previous one ended, beginning at
/// `lo`.
pub open spec fn chained_from(runs: Seq<StyledRunV>, lo: int) -> bool
    decreases runs.len(),
{
    if runs.len() == 0 {
        true
    } else {
        &&& runs[0].span.start as int == lo
        &&& runs[0].span.start <= runs[0].span.end
        &&& chained_from(runs.drop_first(), runs[0].span.end as int)
    }
}

/// Where a chain of runs ends.
pub open spec fn chain_end(runs: Seq<StyledRunV>, lo: int) -> int
    decreases runs.len(),
{
    if runs.len() == 0 {
        lo
    } else {
        chain_end(runs.drop_first(), runs[0].span.end as int)
    }
}

/// The styled runs of a token stream: for each tagged token, first an
/// unstyled gap run from the cursor to the token's start, then, when the
/// token's span is non-empty, a colored run over the span itself.
pub open spec fn spec_style_runs(
    toks: Seq<(TokenV, Option<SourceSpan>)>,
    entries: Seq<(TokenV, ThemeColorV)>,
    cursor: int,
) -> Seq<StyledRunV>
    decreases toks.len(),
{
    if toks.len() == 0 {
        Seq::empty()
    } else {
        match toks[0].1 {
            None => spec_style_runs(toks.drop_first(), entries, cursor),
            Some(sp) => seq![
                StyledRunV { span: span_pair(cursor, sp.start as int), color: gap_color() },
            ] + (
            if sp.start < sp.end {
                seq![StyledRunV { span: sp, color: color_of(entries, toks[0].0) }]
            } else {
                Seq::empty()
            }) + spec_style_runs(toks.drop_first(), entries, sp.end as int),
        }
    }
}

/// The span `[a, b)`.
pub open spec fn span_pair(a: int, b: int) -> SourceSpan {
    SourceSpan { start: a as usize, end: b as usize }
}

proof fn lemma_single_chain(r: StyledRunV, lo: int)
    requires
        r.span.start as int == lo,
        r.span.start <= r.span.end,
    ensures
        chained_from(seq![r], lo),
        chain_end(seq![r], lo) == r.span.end as int,
{
    assert(seq![r].drop_first() =~= Seq::<StyledRunV>::empty());
    assert(chained_from(Seq::<StyledRunV>::empty(), r.span.end as int));
    assert(chain_end(Seq::<StyledRunV>::empty(), r.span.end as int) == r.span.end as int);
    assert(seq![r][0] == r);
}

proof fn lemma_chained_append(a: Seq<StyledRunV>, b: Seq<StyledRunV>, lo: int)
    requires
        chained_from(a, lo),
        chained_from(b, chain_end(a, lo)),
    ensures
        chained_from(a + b, lo),
        chain_end(a + b, lo) == chain_end(b, chain_end(a, lo)),
    decreases a.len(),
{
    if a.len() == 0 {
        assert(a + b =~= b);
    } else {
        assert((a + b)[0] == a[0]);
        assert((a + b).drop_first() =~= a.drop_first() + b);
        lemma_chained_append(a.drop_first(), b, a[0].span.end as int);
    }
}

/// The renderer's covering law: over a well-formed token stream the
/// styled runs tile the source without gaps or overlaps, each run
/// starting where the previous one ended, from `lo` up to the end of the
/// last tagged span. With the tokenizer's synthetic trailing whitespace
/// token that end is the end of the source, so everything typed so far is
/// covered.
pub proof fn lemma_render_covers(
    toks: Seq<(TokenV, Option<SourceSpan>)>,
    entries: Seq<(TokenV, ThemeColorV)>,
    lo: int,
    len: int,
)
    requires
        0 <= lo <= len <= usize::MAX,
        spans_wf(toks, lo, len),
    ensures
        chained_from(spec_style_runs(toks, entries, lo), lo),
        chain_end(spec_style_runs(toks, entries, lo), lo) == tokens_end(toks, lo),
    decreases toks.len(),
{
    if toks.len() == 0 {
    } else {
        match toks[0].1 {
            None => {
                lemma_render_covers(toks.drop_first(), entries, lo, len);
            },
            Some(sp) => {
                lemma_render_covers(toks.drop_first(), entries, sp.end as int, len);
                let gap = seq![
                    StyledRunV { span: span_pair(lo, sp.start as int), color: gap_color() },
                ];
                let mid: Seq<StyledRunV> = if sp.start < sp.end {
                    seq![StyledRunV { span: sp, color: color_of(entries, toks[0].0) }]
                } else {
                    Seq::empty()
                };
                let rest = spec_style_runs(toks.drop_first(), entries, sp.end as int);
                lemma_single_chain(gap[0], lo);
                assert(gap =~= seq![gap[0]]);
                if sp.start < sp.end {
                    lemma_single_chain(mid[0], sp.start as int);
                    assert(mid =~= seq![mid[0]]);
                } else {
                    assert(chained_from(mid, sp.start as int));
                    assert(chain_end(mid, sp.start as int) == sp.start as int);
                }
                lemma_chained_append(mid, rest, sp.start as int);
                lemma_chained_append(gap, mid + rest, lo);
                assert(gap + (mid + rest) =~= gap + mid + rest);
                assert(spec_style_runs(toks, entries, lo) == gap + mid + rest);
            },
        }
    }
}

// ---------------------------------------------------------------------------
// Name and value mappings
// ---------------------------------------------------------------------------

/// The token a graph attribute name colors: the fixed token kinds by
/// their names, anything else a custom token.
pub open spec fn token_for_name(name: Seq<char>) -> TokenV {
    if name == "bracket"@ {
        TokenV::Bracket
    } else if name == "operator"@ {
        TokenV::Operator
    } else if name == "modifier"@ {
        TokenV::Modifier
    } else if name == "identifier"@ {
        TokenV::Identifier
    } else if name == "literal"@ {
        TokenV::Literal
    } else if name == "comment"@ {
        TokenV::Comment
    } else if name == "whitespace"@ {
        TokenV::Whitespace
    } else if name == "keyword"@ {
        TokenV::Keyword
    } else {
        TokenV::Custom(name)
    }
}

/// The palette color a name stands for; unknown names fall back to green.
pub open spec fn palette_color<Style: ColorTheme>(name: Seq<char>) -> Rgba {
    if name == "red"@ {
        Style::spec_red()
    } else if name == "green"@ {
        Style::spec_green()
    } else if name == "blue"@ {
        Style::spec_blue()
    } else if name == "purple"@ {
        Style::spec_purple()
    } else if name == "yellow"@ {
        Style::spec_yellow()
    } else if name == "orange"@ {
        Style::spec_orange()
    } else {
        Style::spec_green()
    }
}

/// The color a graph value stands for: three decimal channels are kept as
/// written, a palette name is resolved, anything else renders white.
pub open spec fn color_for_value<Style: ColorTheme>(v: ValueV) -> ThemeColorV {
    match v {
        ValueV::FloatRange(r, g, b) => ThemeColorV::Channels(r, g, b),
        ValueV::TextBuffer(name) => ThemeColorV::Fixed(palette_color::<Style>(name)),
        _ => ThemeColorV::Fixed(white()),
    }
}

/// The color table after loading the graph's entries from `i` on, oldest
/// first, onto `colors`.
pub open spec fn colors_after_load<Style: ColorTheme>(
    colors: Seq<(TokenV, ThemeColorV)>,
    entries: Seq<AttributeV>,
    i: int,
) -> Seq<(TokenV, ThemeColorV)>
    decreases entries.len() - i,
{
    if i < 0 || i >= entries.len() {
        colors
    } else {
        colors_after_load::<Style>(
            colors.push(
                (token_for_name(entries[i].name), color_for_value::<Style>(entries[i].value)),
            ),
            entries,
            i + 1,
        )
    }
}

/// The seven custom palette entries every theme starts with.
pub open spec fn default_palette<Style: ColorTheme>() -> Seq<(TokenV, ThemeColorV)> {
    seq![
        (TokenV::Custom("background"@), ThemeColorV::Fixed(Style::spec_background())),
        (TokenV::Custom("red"@), ThemeColorV::Fixed(Style::spec_red())),
        (TokenV::Custom("green"@), ThemeColorV::Fixed(Style::spec_green())),
        (TokenV::Custom("blue"@), ThemeColorV::Fixed(Style::spec_blue())),
        (TokenV::Custom("purple"@), ThemeColorV::Fixed(Style::spec_purple())),
        (TokenV::Custom("yellow"@), ThemeColorV::Fixed(Style::spec_yellow())),
        (TokenV::Custom("orange"@), ThemeColorV::Fixed(Style::spec_orange())),
    ]
}

/// The token a graph attribute name colors.
fn token_for_name_exec(name: &String) -> (r: Token)
    ensures
        r@ == token_for_name(name@),
{
    if str_eq(name.as_str(), "bracket") {
        Token::Bracket
    } else if str_eq(name.as_str(), "operator") {
        Token::Operator
    } else if str_eq(name.as_str(), "modifier") {
        Token::Modifier
    } else if str_eq(name.as_str(), "identifier") {
        Token::Identifier
    } else if str_eq(name.as_str(), "literal") {
        Token::Literal
    } else if str_eq(name.as_str(), "comment") {
        Token::Comment
    } else if str_eq(name.as_str(), "whitespace") {
        Token::Whitespace
    } else if str_eq(name.as_str(), "keyword") {
        Token::Keyword
    } else {
        Token::Custom(name.clone())
    }
}

/// The palette color a name stands for.
fn palette_color_exec<Style: ColorTheme>(name: &String) -> (c: Rgba)
    ensures
        c == palette_color::<Style>(name@),
{
    if str_eq(name.as_str(), "red") {
        Style::red()
    } else if str_eq(name.as_str(), "green") {
        Style::green()
    } else if str_eq(name.as_str(), "blue") {
        Style::blue()
    } else if str_eq(name.as_str(), "purple") {
        Style::purple()
    } else if str_eq(name.as_str(), "yellow") {
        Style::yellow()
    } else if str_eq(name.as_str(), "orange") {
        Style::orange()
    } else {
        Style::green()
    }
}

/// The color a graph value stands for.
fn color_for_value_exec<Style: ColorTheme>(v: &Value) -> (c: ThemeColor)
    ensures
        c@ == color_for_value::<Style>(v@),
{
    match v {
        Value::FloatRange(r, g, b) => ThemeColor::Channels(r.clone(), g.clone(), b.clone()),
        Value::TextBuffer(name) => ThemeColor::Fixed(palette_color_exec::<Style>(name)),
        _ => ThemeColor::Fixed(Rgba::new(100000, 100000, 100000, 100000)),
    }
}

// ---------------------------------------------------------------------------
// The theme
// ---------------------------------------------------------------------------

/// Parser context that can convert a source into colored text runs.
pub struct Theme<Style> where Style: ColorTheme {
    /// The style the palette comes from.
    _style: Style,
    /// Token-to-color writes, oldest first; the latest entry for a token
    /// wins.
    colors: Vec<(Token, ThemeColor)>,
    /// The state graph colors are loaded from.
    graph: StateGraph,
}

impl<Style> Theme<Style> where Style: ColorTheme {
    /// The color table, by token.
    pub closed spec fn colors_view(&self) -> Seq<(TokenV, ThemeColorV)> {
        self.colors@.map_values(|p: (Token, ThemeColor)| (p.0@, p.1@))
    }

    /// The graph colors are loaded from.
    pub closed spec fn spec_graph(&self) -> GraphV {
        self.graph@
    }

    /// A theme over `graph`, with the default palette entries, the graph's
    /// color entries loaded on top.
    pub fn new_with_style(style: Style, graph: StateGraph) -> (t: Theme<Style>)
        ensures
            t.colors_view() == colors_after_load::<Style>(
                default_palette::<Style>(),
                graph@.entries,
                0,
            ),
            t.spec_graph() == graph@,
    {
        let mut colors: Vec<(Token, ThemeColor)> = Vec::new();
        colors.push((Token::Custom(String::from_str("background")), ThemeColor::Fixed(
            Style::background(),
        )));
        colors.push((Token::Custom(String::from_str("red")), ThemeColor::Fixed(Style::red())));
        colors.push((Token::Custom(String::from_str("green")), ThemeColor::Fixed(Style::green())));
        colors.push((Token::Custom(String::from_str("blue")), ThemeColor::Fixed(Style::blue())));
        colors.push((Token::Custom(String::from_str("purple")), ThemeColor::Fixed(
            Style::purple(),
        )));
        colors.push((Token::Custom(String::from_str("yellow")), ThemeColor::Fixed(
            Style::yellow(),
        )));
        colors.push((Token::Custom(String::from_str("orange")), ThemeColor::Fixed(
            Style::orange(),
        )));
        let mut theme = Theme { _style: style, colors, graph };
        proof {
            assert(theme.colors_view() =~= default_palette::<Style>());
        }
        theme.load_colors();
        theme
    }

    /// Rebuilds the color table from the graph: every entry is mapped to
    /// a token by its name and to a color by its value, and appended, so
    /// the graph's entries override earlier assignments.
    pub fn load_colors(&mut self)
        ensures
            final(self).colors_view() == colors_after_load::<Style>(
                old(self).colors_view(),
                old(self).spec_graph().entries,
                0,
            ),
            final(self).spec_graph() == old(self).spec_graph(),
    {
        let ghost entries = self.graph@.entries;
        let n = self.graph.len();
        let mut i: usize = 0;
        while i < n
            invariant
                i <= n,
                n == entries.len(),
                entries == self.graph@.entries,
                self.graph@ == old(self).spec_graph(),
                colors_after_load::<Style>(old(self).colors_view(), entries, 0)
                    == colors_after_load::<Style>(self.colors_view(), entries, i as int),
            decreases n - i,
        {
            let entry = match self.graph.entry(i) {
                Some(a) => a,
                None => {
                    proof {
                        assert(false);
                    }
                    return ;
                },
            };
            let token = token_for_name_exec(&entry.name);
            let color = color_for_value_exec::<Style>(&entry.value);
            let ghost before = self.colors_view();
            self.colors.push((token, color));
            proof {
                assert(self.colors_view() =~= before.push(
                    (
                        token_for_name(entries[i as int].name),
                        color_for_value::<Style>(entries[i as int].value),
                    ),
                ));
            }
            i = i + 1;
        }
    }

    /// Sets the color for `token`; the newest assignment wins.
    pub fn set_color(&mut self, token: Token, color: ThemeColor)
        ensures
            final(self).colors_view() == old(self).colors_view().push((token@, color@)),
            final(self).spec_graph() == old(self).spec_graph(),
    {
        let ghost t = token@;
        let ghost c = color@;
        self.colors.push((token, color));
        proof {
            assert(self.colors_view() =~= old(self).colors_view().push((t, c)));
        }
    }

    /// Returns the color set for `token`, if any.
    pub fn get_color(&self, token: Token) -> (r: Option<&ThemeColor>)
        ensures
            match r {
                Some(c) => lookup_color(self.colors_view(), token@) == Some(c@),
                None => lookup_color(self.colors_view(), token@) is None,
            },
    {
        let mut i = self.colors.len();
        proof {
            assert(self.colors_view().take(i as int) =~= self.colors_view());
        }
        while i > 0
            invariant
                i <= self.colors@.len(),
                lookup_color(self.colors_view(), token@) == lookup_color(
                    self.colors_view().take(i as int),
                    token@,
                ),
            decreases i,
        {
            i = i - 1;
            proof {
                assert(self.colors@.map_values(|p: (Token, ThemeColor)| (p.0@, p.1@))[i as int]
                    == (self.colors@[i as int].0@, self.colors@[i as int].1@));
                assert(self.colors_view().take(i as int + 1).last() == self.colors_view()[
                    i as int
                ]);
                assert(self.colors_view().take(i as int + 1).drop_last()
                    =~= self.colors_view().take(i as int));
            }
            if self.colors[i].0 == token {
                return Some(&self.colors[i].1);
            }
        }
        proof {
            assert(self.colors_view().take(0) =~= Seq::<(TokenV, ThemeColorV)>::empty());
        }
        None
    }

    /// The graph colors are loaded from.
    pub fn state_graph(&self) -> (r: &StateGraph)
        ensures
            r@ == self.spec_graph(),
    {
        &self.graph
    }

    /// The color `token` renders with: its mapped color, or the default
    /// palette's green.
    fn render_color(&self, token: &Token) -> (r: ThemeColor)
        ensures
            r@ == color_of(self.colors_view(), token@),
    {
        match self.get_color(token.duplicate()) {
            Some(c) => c.duplicate(),
            None => ThemeColor::Fixed(DefaultTheme::green()),
        }
    }

    fn style_runs_from(
        &self,
        toks: &Vec<ThemeToken>,
        i: usize,
        cursor: usize,
        out: &mut Vec<StyledRun>,
    )
        requires
            i <= toks@.len(),
        ensures
            runs_view(final(out)@) == runs_view(old(out)@) + spec_style_runs(
                theme_tokens_view(toks@).skip(i as int),
                self.colors_view(),
                cursor as int,
            ),
        decreases toks@.len() - i,
    {
        let ghost rest = theme_tokens_view(toks@).skip(i as int);
        if i >= toks.len() {
            proof {
                assert(rest =~= Seq::<(TokenV, Option<SourceSpan>)>::empty());
                assert(runs_view(out@) =~= runs_view(old(out)@) + spec_style_runs(
                    rest,
                    self.colors_view(),
                    cursor as int,
                ));
            }
            return ;
        }
        proof {
            assert(rest[0] == theme_token_view(toks@[i as int]));
            assert(rest.drop_first() =~= theme_tokens_view(toks@).skip(i as int + 1));
        }
        match &toks[i].1 {
            None => {
                self.style_runs_from(toks, i + 1, cursor, out);
                proof {
                    assert(runs_view(out@) =~= runs_view(old(out)@) + spec_style_runs(
                        rest,
                        self.colors_view(),
                        cursor as int,
                    ));
                }
            },
            Some(sp) => {
                let start = sp.start;
                let end = sp.end;
                out.push(
                    StyledRun {
                        span: SourceSpan::new(cursor, start),
                        color: ThemeColor::Fixed(Rgba::new(100000, 100000, 100000, 80000)),
                    },
                );
                if start < end {
                    let color = self.render_color(&toks[i].0);
                    out.push(StyledRun { span: SourceSpan::new(start, end), color });
                }
                self.style_runs_from(toks, i + 1, end, out);
                proof {
                    assert(runs_view(out@) =~= runs_view(old(out)@) + spec_style_runs(
                        rest,
                        self.colors_view(),
                        cursor as int,
                    ));
                }
            },
        }
    }

    /// Renders a source into styled runs: the grammar's tokens are walked
    /// in order; each tagged token first yields an unstyled run for the
    /// gap between the previous token's end and its start, then a colored
    /// run over its own span. Over a grammar's well-formed tokens the
    /// runs tile `[0, end of the last tagged span)` with no gaps and no
    /// overlaps.
    pub fn render<G: Grammer>(&self, grammer: &G, source: &str) -> (runs: Vec<StyledRun>)
        ensures
            runs_view(runs@) == spec_style_runs(
                grammer.parse_spec(source@),
                self.colors_view(),
                0,
            ),
            chained_from(runs_view(runs@), 0),
            chain_end(runs_view(runs@), 0) == tokens_end(grammer.parse_spec(source@), 0),
    {
        let n: usize = source.unicode_len();
        let toks = grammer.parse(source);
        let mut runs: Vec<StyledRun> = Vec::new();
        proof {
            assert(runs_view(runs@) =~= Seq::<StyledRunV>::empty());
        }
        self.style_runs_from(&toks, 0, 0, &mut runs);
        proof {
            assert(theme_tokens_view(toks@).skip(0) =~= theme_tokens_view(toks@));
            lemma_render_covers(
                grammer.parse_spec(source@),
                self.colors_view(),
                0,
                source@.len() as int,
            );
        }
        runs
    }
}

impl Theme<DefaultTheme> {
    /// A theme over an empty graph, with the default palette.
    pub fn new() -> (t: Theme<DefaultTheme>)
        ensures
            t.colors_view() == colors_after_load::<DefaultTheme>(
                default_palette::<DefaultTheme>(),
                crate::graph::empty_graph().entries,
                0,
            ),
            t.spec_graph() == crate::graph::empty_graph(),
    {
        Theme::new_with(StateGraph::new())
    }

    /// A theme over `graph`, in the default style.
    pub fn new_with(graph: StateGraph) -> (t: Theme<DefaultTheme>)
        ensures
            t.colors_view() == colors_after_load::<DefaultTheme>(
                default_palette::<DefaultTheme>(),
                graph@.entries,
                0,
            ),
            t.spec_graph() == graph@,
    {
        Theme::new_with_style(DefaultTheme, graph)
    }
}

} // verus!
