//! The `runmd` markup tokenizer: a single forward scan with line-bounded
//! lookahead that emits span-tagged semantic tokens and, as a deliberate
//! side effect, writes attribute definitions into an attached state graph.

use vstd::prelude::*;

use crate::graph::GraphV;
use crate::graph::StateGraph;
use crate::graph::Value;
use crate::graph::ValueV;
use crate::graph::empty_graph;
use crate::graph::graph_add;
use crate::graph::graph_close_block;
use crate::graph::graph_define;
use crate::graph::graph_open_block;
use crate::graph::graph_rekind_block;
use crate::numbers::find_either;
use crate::numbers::find_either_exec;
use crate::numbers::lemma_find_either;
use crate::text::subrange_chars;
use crate::theme::SourceSpan;
use crate::theme::ThemeToken;
use crate::theme::Token;
use crate::theme::TokenV;
use crate::theme::theme_tokens_view;

pub mod v1_lexer;

pub use v1_lexer::AttributeGraphElements;
pub use v1_lexer::AttributeGraphEvents;

use v1_lexer::ElementV;
use v1_lexer::ValueTag;
use v1_lexer::is_skip_char;
use v1_lexer::lemma_nth_element_bounds;
use v1_lexer::lemma_tag_at_bounds;
use v1_lexer::nth_element;
use v1_lexer::prefix_at;
use v1_lexer::spec_nth_element;
use v1_lexer::spec_tag_at;
use v1_lexer::tag_at;

verus! {

// ---------------------------------------------------------------------------
// Tokens
// ---------------------------------------------------------------------------

/// One token of the `runmd` grammar, carrying the source spans of its
/// parts.
#[derive(Clone, Debug, PartialEq)]
pub enum Runmd {
    /// Delimits the start or end of a block. Two further elements open a
    /// named block, one re-labels the open block, none closes it.
    BlockDelimitter(Vec<SourceSpan>),
    /// A block event: `add` or `define`, or their shorthands `+` and `:`.
    BlockKeyword(Vec<SourceSpan>),
    /// An attribute value: a type tag and the remainder of the line.
    AttributeValue(SourceSpan, SourceSpan),
    /// A comment: the rest of the line is ignored.
    Comment,
    /// Anything the grammar does not recognize.
    Error,
}

/// The mathematical value of a [`Runmd`] token.
pub enum RunmdV {
    BlockDelimitter(Seq<SourceSpan>),
    BlockKeyword(Seq<SourceSpan>),
    AttributeValue((SourceSpan, SourceSpan)),
    Comment,
    Error,
}

impl View for Runmd {
    type V = RunmdV;

    open spec fn view(&self) -> RunmdV {
        match self {
            Runmd::BlockDelimitter(spans) => RunmdV::BlockDelimitter(spans@),
            Runmd::BlockKeyword(spans) => RunmdV::BlockKeyword(spans@),
            Runmd::AttributeValue(a, b) => RunmdV::AttributeValue((*a, *b)),
            Runmd::Comment => RunmdV::Comment,
            Runmd::Error => RunmdV::Error,
        }
    }
}

/// The view of an optional token.
pub open spec fn opt_runmd_view(o: Option<Runmd>) -> Option<RunmdV> {
    match o {
        Some(t) => Some(t@),
        None => None,
    }
}

impl Default for Runmd {
    /// The error token, as a neutral parser value.
    fn default() -> (r: Runmd)
        ensures
            r@ is Error,
    {
        Runmd::Error
    }
}

/// The span `[a, b)`.
pub open spec fn span_of(a: int, b: int) -> SourceSpan {
    SourceSpan { start: a as usize, end: b as usize }
}

/// The value an element carries into the graph, if it carries one.
pub open spec fn spec_get_value(e: ElementV) -> Option<ValueV> {
    match e {
        ElementV::Text(v) => Some(v),
        ElementV::Bool(v) => Some(v),
        ElementV::Int(v) => Some(v),
        ElementV::IntPair(v) => Some(v),
        ElementV::IntRange(v) => Some(v),
        ElementV::Float(v) => Some(v),
        ElementV::FloatPair(v) => Some(v),
        ElementV::FloatRange(v) => Some(v),
        ElementV::BinaryVector(v) => Some(v),
        ElementV::SymbolValue(v) => Some(v),
        ElementV::Empty => Some(ValueV::Empty),
        ElementV::Entity(_) => None,
        ElementV::Symbol(_) => None,
        ElementV::Name(_) => None,
        ElementV::Error => None,
    }
}

/// The value an element carries into the graph, if it carries one.
pub fn get_value(element: AttributeGraphElements) -> (r: Option<Value>)
    ensures
        match r {
            Some(v) => spec_get_value(element@) == Some(v@),
            None => spec_get_value(element@) is None,
        },
{
    match element {
        AttributeGraphElements::Text(v) => Some(v),
        AttributeGraphElements::Bool(v) => Some(v),
        AttributeGraphElements::Int(v) => Some(v),
        AttributeGraphElements::IntPair(v) => Some(v),
        AttributeGraphElements::IntRange(v) => Some(v),
        AttributeGraphElements::Float(v) => Some(v),
        AttributeGraphElements::FloatPair(v) => Some(v),
        AttributeGraphElements::FloatRange(v) => Some(v),
        AttributeGraphElements::BinaryVector(v) => Some(v),
        AttributeGraphElements::SymbolValue(v) => Some(v),
        AttributeGraphElements::Empty => Some(Value::Empty),
        AttributeGraphElements::Entity(_) => None,
        AttributeGraphElements::Symbol(_) => None,
        AttributeGraphElements::Name(_) => None,
        AttributeGraphElements::Error => None,
    }
}

// ---------------------------------------------------------------------------
// One scanning step
// ---------------------------------------------------------------------------

/// A comment token: the rest of the line is consumed; without a line end
/// in sight the marker degrades to an error token.
pub open spec fn spec_comment_step(s: Seq<char>, pos: int, tl: int) -> (RunmdV, int) {
    let e = find_either(s, pos + tl, '\r', '\n');
    if e >= s.len() {
        (RunmdV::Error, pos + tl)
    } else {
        (RunmdV::Comment, e)
    }
}

/// A block delimiter: the elements on the rest of the line decide whether
/// a block opens, is re-labeled, or closes.
pub open spec fn spec_delim_step(s: Seq<char>, pos: int, tl: int, g: GraphV) -> (
    RunmdV,
    int,
    GraphV,
) {
    let tend = pos + tl;
    let e = find_either(s, tend, '\r', '\n');
    if e >= s.len() {
        (RunmdV::BlockDelimitter(seq![span_of(pos, tend)]), tend, graph_close_block(g))
    } else {
        let line = s.subrange(tend, e);
        match spec_nth_element(line, 0, 0) {
            Some((ElementV::Symbol(a), s1, e1)) => match spec_nth_element(line, 0, 1) {
                Some((ElementV::Symbol(b), s2, e2)) => (
                    RunmdV::BlockDelimitter(
                        seq![
                            span_of(pos, tend),
                            span_of(tend + s1, tend + e1),
                            span_of(tend + s2, tend + e2),
                        ],
                    ),
                    e,
                    graph_open_block(g, a, b),
                ),
                None => (
                    RunmdV::BlockDelimitter(
                        seq![span_of(pos, tend), span_of(tend + s1, tend + e1)],
                    ),
                    e,
                    graph_rekind_block(g, a),
                ),
                Some(_) => (RunmdV::BlockDelimitter(seq![span_of(pos, tend)]), e, g),
            },
            None => (RunmdV::BlockDelimitter(seq![span_of(pos, tend)]), e, graph_close_block(g)),
            Some(_) => (RunmdV::BlockDelimitter(seq![span_of(pos, tend)]), e, g),
        }
    }
}

/// An `add` event: `add {attribute-name} {typed-value}` writes a new
/// attribute to the graph; an unparseable value is a soft failure, the
/// keyword token is still emitted and nothing is written.
pub open spec fn spec_add_step(s: Seq<char>, pos: int, tl: int, g: GraphV) -> (
    RunmdV,
    int,
    GraphV,
) {
    let tend = pos + tl;
    let e = find_either(s, tend, '\r', '\n');
    if e >= s.len() {
        (RunmdV::Error, tend, g)
    } else {
        let line = s.subrange(tend, e);
        match spec_nth_element(line, 0, 0) {
            Some((ElementV::Symbol(name), _, _)) => match spec_nth_element(line, 0, 1) {
                Some((v2, vs, _)) => match spec_get_value(v2) {
                    Some(val) => (
                        RunmdV::BlockKeyword(
                            seq![span_of(pos, tend), span_of(tend, tend + vs)],
                        ),
                        tend + vs,
                        graph_add(g, name, val),
                    ),
                    None => (RunmdV::BlockKeyword(seq![span_of(pos, tend)]), tend + vs, g),
                },
                None => (RunmdV::BlockKeyword(seq![span_of(pos, tend)]), tend, g),
            },
            _ => (RunmdV::BlockKeyword(seq![span_of(pos, tend)]), tend, g),
        }
    }
}

/// A `define` event: `define {attribute-name} {symbol-name} {typed-value}`
/// writes a named symbol under that attribute.
pub open spec fn spec_define_step(s: Seq<char>, pos: int, tl: int, g: GraphV) -> (
    RunmdV,
    int,
    GraphV,
) {
    let tend = pos + tl;
    let e = find_either(s, tend, '\r', '\n');
    if e >= s.len() {
        (RunmdV::Error, tend, g)
    } else {
        let line = s.subrange(tend, e);
        match spec_nth_element(line, 0, 0) {
            Some((ElementV::Symbol(name), ns, ne)) => match spec_nth_element(line, 0, 1) {
                Some((ElementV::Symbol(sym), ss, se)) => match spec_nth_element(line, 0, 2) {
                    Some((v3, _, _)) => {
                        let spans = seq![
                            span_of(pos, tend),
                            span_of(tend + ns, tend + ne + 1),
                            span_of(tend + ss, tend + se + 1),
                        ];
                        let g2 = match spec_get_value(v3) {
                            Some(val) => graph_define(g, name, sym, val),
                            None => g,
                        };
                        (RunmdV::BlockKeyword(spans), tend + se, g2)
                    },
                    None => (RunmdV::BlockKeyword(seq![span_of(pos, tend)]), tend, g),
                },
                _ => (RunmdV::BlockKeyword(seq![span_of(pos, tend)]), tend, g),
            },
            _ => (RunmdV::BlockKeyword(seq![span_of(pos, tend)]), tend, g),
        }
    }
}

/// An attribute value: a recognized type tag emits a token covering the
/// tag and the remainder of the line, whether or not the value parses;
/// an unrecognized tag emits nothing and the line is skipped.
pub open spec fn spec_attr_step(s: Seq<char>, pos: int) -> (RunmdV, int) {
    let tend = pos + 1;
    let e = find_either(s, tend, '\r', '\n');
    if e >= s.len() {
        (RunmdV::Error, tend)
    } else {
        match spec_tag_at(s, pos) {
            Some((tag, m)) => {
                if tag is Empty {
                    (RunmdV::Error, e)
                } else {
                    // the cut stands one past the tag; a tag never crosses
                    // the end of the line
                    let cut = if pos + 1 + m <= s.len() {
                        pos + 1 + m
                    } else {
                        s.len() as int
                    };
                    (RunmdV::AttributeValue((span_of(pos, cut), span_of(cut, e))), e)
                }
            },
            None => (RunmdV::Error, e),
        }
    }
}

/// One step of the scan at `pos`: whitespace is skipped, and the first
/// matching token pattern is taken, longest first.
pub open spec fn spec_runmd_step(s: Seq<char>, pos: int, g: GraphV) -> (Option<RunmdV>, int, GraphV) {
    if is_skip_char(s[pos]) {
        (None, pos + 1, g)
    } else if prefix_at(s, pos, "``` runmd"@) {
        let (t, p) = spec_comment_step(s, pos, "``` runmd"@.len() as int);
        (Some(t), p, g)
    } else if prefix_at(s, pos, "``` md"@) {
        let (t, p) = spec_comment_step(s, pos, "``` md"@.len() as int);
        (Some(t), p, g)
    } else if prefix_at(s, pos, "``` "@) {
        let (t, p, g2) = spec_delim_step(s, pos, "``` "@.len() as int, g);
        (Some(t), p, g2)
    } else if prefix_at(s, pos, "```"@) {
        let (t, p, g2) = spec_delim_step(s, pos, "```"@.len() as int, g);
        (Some(t), p, g2)
    } else if prefix_at(s, pos, "define"@) {
        let (t, p, g2) = spec_define_step(s, pos, "define"@.len() as int, g);
        (Some(t), p, g2)
    } else if prefix_at(s, pos, "add"@) {
        let (t, p, g2) = spec_add_step(s, pos, "add"@.len() as int, g);
        (Some(t), p, g2)
    } else if prefix_at(s, pos, ":"@) {
        let (t, p, g2) = spec_define_step(s, pos, 1, g);
        (Some(t), p, g2)
    } else if prefix_at(s, pos, "+"@) {
        let (t, p, g2) = spec_add_step(s, pos, 1, g);
        (Some(t), p, g2)
    } else if prefix_at(s, pos, "."@) {
        let (t, p) = spec_attr_step(s, pos);
        (Some(t), p, g)
    } else if prefix_at(s, pos, "-"@) {
        let (t, p) = spec_comment_step(s, pos, 1);
        (Some(t), p, g)
    } else if prefix_at(s, pos, "#"@) {
        let (t, p) = spec_comment_step(s, pos, 1);
        (Some(t), p, g)
    } else {
        (Some(RunmdV::Error), pos + 1, g)
    }
}

/// The lengths of the multi-character markers.
proof fn lemma_marker_lengths()
    ensures
        "``` runmd"@.len() == 9,
        "``` md"@.len() == 6,
        "``` "@.len() == 4,
        "```"@.len() == 3,
        "define"@.len() == 6,
        "add"@.len() == 3,
        ":"@.len() == 1,
        "+"@.len() == 1,
        "."@.len() == 1,
        "-"@.len() == 1,
        "#"@.len() == 1,
{
    reveal_strlit("``` runmd");
    reveal_strlit("``` md");
    reveal_strlit("``` ");
    reveal_strlit("```");
    reveal_strlit("define");
    reveal_strlit("add");
    reveal_strlit(":");
    reveal_strlit("+");
    reveal_strlit(".");
    reveal_strlit("-");
    reveal_strlit("#");
}

/// The scan makes progress and stays within bounds.
proof fn lemma_runmd_step_bounds(s: Seq<char>, pos: int, g: GraphV)
    requires
        0 <= pos < s.len(),
    ensures
        pos < spec_runmd_step(s, pos, g).1 <= s.len(),
{
    lemma_marker_lengths();
    if is_skip_char(s[pos]) {
    } else if prefix_at(s, pos, "``` runmd"@) {
        lemma_find_either(s, pos + 9, '\r', '\n');
    } else if prefix_at(s, pos, "``` md"@) {
        lemma_find_either(s, pos + 6, '\r', '\n');
    } else if prefix_at(s, pos, "``` "@) {
        lemma_delim_step_bounds(s, pos, 4, g);
    } else if prefix_at(s, pos, "```"@) {
        lemma_delim_step_bounds(s, pos, 3, g);
    } else if prefix_at(s, pos, "define"@) {
        lemma_event_step_bounds(s, pos, 6, true, g);
    } else if prefix_at(s, pos, "add"@) {
        lemma_event_step_bounds(s, pos, 3, false, g);
    } else if prefix_at(s, pos, ":"@) {
        lemma_event_step_bounds(s, pos, 1, true, g);
    } else if prefix_at(s, pos, "+"@) {
        lemma_event_step_bounds(s, pos, 1, false, g);
    } else if prefix_at(s, pos, "."@) {
        lemma_find_either(s, pos + 1, '\r', '\n');
    } else if prefix_at(s, pos, "-"@) {
        lemma_find_either(s, pos + 1, '\r', '\n');
    } else if prefix_at(s, pos, "#"@) {
        lemma_find_either(s, pos + 1, '\r', '\n');
    } else {
    }
}

proof fn lemma_delim_step_bounds(s: Seq<char>, pos: int, tl: int, g: GraphV)
    requires
        0 <= pos,
        1 <= tl,
        pos + tl <= s.len(),
    ensures
        pos < spec_delim_step(s, pos, tl, g).1 <= s.len(),
{
    let tend = pos + tl;
    lemma_find_either(s, tend, '\r', '\n');
}

proof fn lemma_event_step_bounds(s: Seq<char>, pos: int, tl: int, is_define: bool, g: GraphV)
    requires
        0 <= pos,
        1 <= tl,
        pos + tl <= s.len(),
    ensures
        is_define ==> pos < spec_define_step(s, pos, tl, g).1 <= s.len(),
        !is_define ==> pos < spec_add_step(s, pos, tl, g).1 <= s.len(),
{
    let tend = pos + tl;
    lemma_find_either(s, tend, '\r', '\n');
    let e = find_either(s, tend, '\r', '\n');
    if e < s.len() {
        let line = s.subrange(tend, e);
        lemma_nth_element_bounds(line, 0, 0);
        lemma_nth_element_bounds(line, 0, 1);
        lemma_nth_element_bounds(line, 0, 2);
    }
}

// ---------------------------------------------------------------------------
// Executable steps
// ---------------------------------------------------------------------------

fn comment_step(v: &Vec<char>, pos: usize, tl: usize) -> (r: (Runmd, usize))
    requires
        pos + tl <= v@.len(),
    ensures
        (r.0@, r.1 as int) == spec_comment_step(v@, pos as int, tl as int),
{
    let n: usize = v.len();
    let e = find_either_exec(v, pos + tl, '\r', '\n');
    if e >= n {
        (Runmd::Error, pos + tl)
    } else {
        (Runmd::Comment, e)
    }
}

fn delim_step(v: &Vec<char>, pos: usize, tl: usize, g: &mut StateGraph) -> (r: (Runmd, usize))
    requires
        pos + tl <= v@.len(),
    ensures
        ({
            let (t, p, g2) = spec_delim_step(v@, pos as int, tl as int, old(g)@);
            r.0@ == t && r.1 as int == p && final(g)@ == g2
        }),
{
    let n = v.len();
    let tend = pos + tl;
    let e = find_either_exec(v, tend, '\r', '\n');
    proof {
        lemma_find_either(v@, tend as int, '\r', '\n');
    }
    if e >= n {
        g.close_block();
        let mut spans: Vec<SourceSpan> = Vec::new();
        spans.push(SourceSpan::new(pos, tend));
        proof {
            assert(spans@ =~= seq![span_of(pos as int, tend as int)]);
        }
        (Runmd::BlockDelimitter(spans), tend)
    } else {
        let line = subrange_chars(v, tend, e);
        proof {
            lemma_nth_element_bounds(line@, 0, 0);
            lemma_nth_element_bounds(line@, 0, 1);
        }
        let first = nth_element(&line, 0, 0);
        let second = nth_element(&line, 0, 1);
        match first {
            Some((AttributeGraphElements::Symbol(a), s1, e1)) => {
                match second {
                    Some((AttributeGraphElements::Symbol(b), s2, e2)) => {
                        let mut spans: Vec<SourceSpan> = Vec::new();
                        spans.push(SourceSpan::new(pos, tend));
                        spans.push(SourceSpan::new(tend + s1, tend + e1));
                        spans.push(SourceSpan::new(tend + s2, tend + e2));
                        proof {
                            assert(spans@ =~= seq![
                                span_of(pos as int, tend as int),
                                span_of(tend as int + s1 as int, tend as int + e1 as int),
                                span_of(tend as int + s2 as int, tend as int + e2 as int),
                            ]);
                        }
                        g.open_block(a, b);
                        (Runmd::BlockDelimitter(spans), e)
                    },
                    None => {
                        let mut spans: Vec<SourceSpan> = Vec::new();
                        spans.push(SourceSpan::new(pos, tend));
                        spans.push(SourceSpan::new(tend + s1, tend + e1));
                        proof {
                            assert(spans@ =~= seq![
                                span_of(pos as int, tend as int),
                                span_of(tend as int + s1 as int, tend as int + e1 as int),
                            ]);
                        }
                        g.rekind_block(a);
                        (Runmd::BlockDelimitter(spans), e)
                    },
                    Some(_) => {
                        let mut spans: Vec<SourceSpan> = Vec::new();
                        spans.push(SourceSpan::new(pos, tend));
                        proof {
                            assert(spans@ =~= seq![span_of(pos as int, tend as int)]);
                        }
                        (Runmd::BlockDelimitter(spans), e)
                    },
                }
            },
            None => {
                let mut spans: Vec<SourceSpan> = Vec::new();
                spans.push(SourceSpan::new(pos, tend));
                proof {
                    assert(spans@ =~= seq![span_of(pos as int, tend as int)]);
                }
                g.close_block();
                (Runmd::BlockDelimitter(spans), e)
            },
            Some(_) => {
                let mut spans: Vec<SourceSpan> = Vec::new();
                spans.push(SourceSpan::new(pos, tend));
                proof {
                    assert(spans@ =~= seq![span_of(pos as int, tend as int)]);
                }
                (Runmd::BlockDelimitter(spans), e)
            },
        }
    }
}

fn add_step(v: &Vec<char>, pos: usize, tl: usize, g: &mut StateGraph) -> (r: (Runmd, usize))
    requires
        pos + tl <= v@.len(),
    ensures
        ({
            let (t, p, g2) = spec_add_step(v@, pos as int, tl as int, old(g)@);
            r.0@ == t && r.1 as int == p && final(g)@ == g2
        }),
{
    let n = v.len();
    let tend = pos + tl;
    let e = find_either_exec(v, tend, '\r', '\n');
    proof {
        lemma_find_either(v@, tend as int, '\r', '\n');
    }
    if e >= n {
        return (Runmd::Error, tend);
    }
    let line = subrange_chars(v, tend, e);
    proof {
        lemma_nth_element_bounds(line@, 0, 0);
        lemma_nth_element_bounds(line@, 0, 1);
    }
    let first = nth_element(&line, 0, 0);
    let second = nth_element(&line, 0, 1);
    match first {
        Some((AttributeGraphElements::Symbol(name), _, _)) => {
            match second {
                Some((v2, vs, _)) => {
                    match get_value(v2) {
                        Some(val) => {
                            let mut spans: Vec<SourceSpan> = Vec::new();
                            spans.push(SourceSpan::new(pos, tend));
                            spans.push(SourceSpan::new(tend, tend + vs));
                            proof {
                                assert(spans@ =~= seq![
                                    span_of(pos as int, tend as int),
                                    span_of(tend as int, tend as int + vs as int),
                                ]);
                            }
                            g.add(name, val);
                            (Runmd::BlockKeyword(spans), tend + vs)
                        },
                        None => {
                            let mut spans: Vec<SourceSpan> = Vec::new();
                            spans.push(SourceSpan::new(pos, tend));
                            proof {
                                assert(spans@ =~= seq![span_of(pos as int, tend as int)]);
                            }
                            (Runmd::BlockKeyword(spans), tend + vs)
                        },
                    }
                },
                None => {
                    let mut spans: Vec<SourceSpan> = Vec::new();
                    spans.push(SourceSpan::new(pos, tend));
                    proof {
                        assert(spans@ =~= seq![span_of(pos as int, tend as int)]);
                    }
                    (Runmd::BlockKeyword(spans), tend)
                },
            }
        },
        _ => {
            let mut spans: Vec<SourceSpan> = Vec::new();
            spans.push(SourceSpan::new(pos, tend));
            proof {
                assert(spans@ =~= seq![span_of(pos as int, tend as int)]);
            }
            (Runmd::BlockKeyword(spans), tend)
        },
    }
}

fn define_step(v: &Vec<char>, pos: usize, tl: usize, g: &mut StateGraph) -> (r: (Runmd, usize))
    requires
        pos + tl <= v@.len(),
    ensures
        ({
            let (t, p, g2) = spec_define_step(v@, pos as int, tl as int, old(g)@);
            r.0@ == t && r.1 as int == p && final(g)@ == g2
        }),
{
    let n = v.len();
    let tend = pos + tl;
    let e = find_either_exec(v, tend, '\r', '\n');
    proof {
        lemma_find_either(v@, tend as int, '\r', '\n');
    }
    if e >= n {
        return (Runmd::Error, tend);
    }
    let line = subrange_chars(v, tend, e);
    proof {
        lemma_nth_element_bounds(line@, 0, 0);
        lemma_nth_element_bounds(line@, 0, 1);
        lemma_nth_element_bounds(line@, 0, 2);
    }
    let first = nth_element(&line, 0, 0);
    let second = nth_element(&line, 0, 1);
    let third = nth_element(&line, 0, 2);
    match first {
        Some((AttributeGraphElements::Symbol(name), ns, ne)) => {
            match second {
                Some((AttributeGraphElements::Symbol(sym), ss, se)) => {
                    match third {
                        Some((v3, _, _)) => {
                            let mut spans: Vec<SourceSpan> = Vec::new();
                            spans.push(SourceSpan::new(pos, tend));
                            spans.push(SourceSpan::new(tend + ns, tend + ne + 1));
                            spans.push(SourceSpan::new(tend + ss, tend + se + 1));
                            proof {
                                assert(spans@ =~= seq![
                                    span_of(pos as int, tend as int),
                                    span_of(
                                        tend as int + ns as int,
                                        tend as int + ne as int + 1,
                                    ),
                                    span_of(
                                        tend as int + ss as int,
                                        tend as int + se as int + 1,
                                    ),
                                ]);
                            }
                            match get_value(v3) {
                                Some(val) => {
                                    g.define(name, sym, val);
                                },
                                None => {},
                            }
                            (Runmd::BlockKeyword(spans), tend + se)
                        },
                        None => {
                            let mut spans: Vec<SourceSpan> = Vec::new();
                            spans.push(SourceSpan::new(pos, tend));
                            proof {
                                assert(spans@ =~= seq![span_of(pos as int, tend as int)]);
                            }
                            (Runmd::BlockKeyword(spans), tend)
                        },
                    }
                },
                _ => {
                    let mut spans: Vec<SourceSpan> = Vec::new();
                    spans.push(SourceSpan::new(pos, tend));
                    proof {
                        assert(spans@ =~= seq![span_of(pos as int, tend as int)]);
                    }
                    (Runmd::BlockKeyword(spans), tend)
                },
            }
        },
        _ => {
            let mut spans: Vec<SourceSpan> = Vec::new();
            spans.push(SourceSpan::new(pos, tend));
            proof {
                assert(spans@ =~= seq![span_of(pos as int, tend as int)]);
            }
            (Runmd::BlockKeyword(spans), tend)
        },
    }
}

fn attr_step(v: &Vec<char>, pos: usize) -> (r: (Runmd, usize))
    requires
        pos < v@.len(),
    ensures
        (r.0@, r.1 as int) == spec_attr_step(v@, pos as int),
{
    let n = v.len();
    let tend = pos + 1;
    let e = find_either_exec(v, tend, '\r', '\n');
    proof {
        lemma_find_either(v@, tend as int, '\r', '\n');
    }
    if e >= n {
        return (Runmd::Error, tend);
    }
    match tag_at(v, pos) {
        Some((tag, m)) => {
            match tag {
                ValueTag::Empty => (Runmd::Error, e),
                _ => {
                    proof {
                        lemma_tag_at_bounds(v@, pos as int);
                    }
                    let cut = if pos + m < n {
                        pos + 1 + m
                    } else {
                        n
                    };
                    (
                        Runmd::AttributeValue(SourceSpan::new(pos, cut), SourceSpan::new(cut, e)),
                        e,
                    )
                },
            }
        },
        None => (Runmd::Error, e),
    }
}

/// One step of the scan at `pos`.
#[verifier::rlimit(60)]
fn runmd_step(v: &Vec<char>, pos: usize, g: &mut StateGraph) -> (r: (Option<Runmd>, usize))
    requires
        pos < v@.len(),
    ensures
        ({
            let (t, p, g2) = spec_runmd_step(v@, pos as int, old(g)@);
            opt_runmd_view(r.0) == t && r.1 as int == p && final(g)@ == g2
        }),
        pos < r.1 <= v@.len(),
{
    let _n: usize = v.len();
    proof {
        lemma_runmd_step_bounds(v@, pos as int, old(g)@);
        lemma_marker_lengths();
    }
    let c = v[pos];
    if c == ' ' || c == '\t' || c == '\n' || c == '\u{c}' {
        (None, pos + 1)
    } else if v1_lexer::has_prefix(v, pos, "``` runmd") {
        let (t, p) = comment_step(v, pos, "``` runmd".unicode_len());
        (Some(t), p)
    } else if v1_lexer::has_prefix(v, pos, "``` md") {
        let (t, p) = comment_step(v, pos, "``` md".unicode_len());
        (Some(t), p)
    } else if v1_lexer::has_prefix(v, pos, "``` ") {
        let (t, p) = delim_step(v, pos, "``` ".unicode_len(), g);
        (Some(t), p)
    } else if v1_lexer::has_prefix(v, pos, "```") {
        let (t, p) = delim_step(v, pos, "```".unicode_len(), g);
        (Some(t), p)
    } else if v1_lexer::has_prefix(v, pos, "define") {
        let (t, p) = define_step(v, pos, "define".unicode_len(), g);
        (Some(t), p)
    } else if v1_lexer::has_prefix(v, pos, "add") {
        let (t, p) = add_step(v, pos, "add".unicode_len(), g);
        (Some(t), p)
    } else if v1_lexer::has_prefix(v, pos, ":") {
        let (t, p) = define_step(v, pos, 1, g);
        (Some(t), p)
    } else if v1_lexer::has_prefix(v, pos, "+") {
        let (t, p) = add_step(v, pos, 1, g);
        (Some(t), p)
    } else if v1_lexer::has_prefix(v, pos, ".") {
        let (t, p) = attr_step(v, pos);
        (Some(t), p)
    } else if v1_lexer::has_prefix(v, pos, "-") {
        let (t, p) = comment_step(v, pos, 1);
        (Some(t), p)
    } else if v1_lexer::has_prefix(v, pos, "#") {
        let (t, p) = comment_step(v, pos, 1);
        (Some(t), p)
    } else {
        (Some(Runmd::Error), pos + 1)
    }
}

// ---------------------------------------------------------------------------
// The scan
// ---------------------------------------------------------------------------

/// The token stream of `s` from `pos`, and the graph after its side
/// effects.
pub open spec fn spec_scan(s: Seq<char>, pos: int, g: GraphV) -> (Seq<RunmdV>, GraphV)
    decreases s.len() - pos,
    via spec_scan_decreases
{
    if pos < 0 || pos >= s.len() {
        (Seq::empty(), g)
    } else {
        let (t, p2, g2) = spec_runmd_step(s, pos, g);
        let (rest, g3) = spec_scan(s, p2, g2);
        (
            match t {
                Some(tok) => seq![tok] + rest,
                None => rest,
            },
            g3,
        )
    }
}

#[via_fn]
proof fn spec_scan_decreases(s: Seq<char>, pos: int, g: GraphV) {
    if 0 <= pos < s.len() {
        lemma_runmd_step_bounds(s, pos, g);
    }
}

fn scan_from(v: &Vec<char>, pos: usize, g: &mut StateGraph, out: &mut Vec<Runmd>)
    requires
        pos <= v@.len(),
    ensures
        ({
            let (ts, g2) = spec_scan(v@, pos as int, old(g)@);
            final(out)@.map_values(|t: Runmd| t@) == old(out)@.map_values(|t: Runmd| t@) + ts
                && final(g)@ == g2
        }),
    decreases v@.len() - pos,
{
    if pos >= v.len() {
        proof {
            assert(out@.map_values(|t: Runmd| t@) =~= old(out)@.map_values(|t: Runmd| t@)
                + spec_scan(v@, pos as int, old(g)@).0);
        }
        return ;
    }
    let (t, p2) = runmd_step(v, pos, g);
    match t {
        Some(tok) => {
            out.push(tok);
        },
        None => {},
    }
    scan_from(v, p2, g, out);
    proof {
        assert(out@.map_values(|t: Runmd| t@) =~= old(out)@.map_values(|t: Runmd| t@) + spec_scan(
            v@,
            pos as int,
            old(g)@,
        ).0);
    }
}

// ---------------------------------------------------------------------------
// Theme tokens
// ---------------------------------------------------------------------------

/// The theme tokens a `runmd` token stands for: block delimiters emit a
/// bracket and name/kind identifiers, events a keyword with identifier
/// and symbol, attribute values a keyword and a literal, comments a
/// single untagged comment token.
pub open spec fn spec_theme_tokens_of(t: RunmdV) -> Seq<(TokenV, Option<SourceSpan>)> {
    match t {
        RunmdV::BlockDelimitter(spans) => {
            if spans.len() == 0 {
                Seq::empty()
            } else {
                seq![(TokenV::Bracket, Some(spans[0]))] + if spans.len() == 3 {
                    seq![
                        (TokenV::Identifier, Some(spans[1])),
                        (TokenV::Keyword, Some(spans[2])),
                    ]
                } else if spans.len() == 2 {
                    seq![(TokenV::Keyword, Some(spans[1]))]
                } else {
                    Seq::empty()
                }
            }
        },
        RunmdV::BlockKeyword(spans) => (
        if spans.len() >= 1 {
            seq![(TokenV::Keyword, Some(spans[0]))]
        } else {
            Seq::empty()
        }) + (
        if spans.len() >= 2 {
            seq![(TokenV::Identifier, Some(spans[1]))]
        } else {
            Seq::empty()
        }) + (
        if spans.len() >= 3 {
            seq![(TokenV::Keyword, Some(spans[2]))]
        } else {
            Seq::empty()
        }),
        RunmdV::AttributeValue((a, b)) => seq![
            (TokenV::Keyword, Some(a)),
            (TokenV::Literal, Some(b)),
        ],
        RunmdV::Comment => seq![(TokenV::Comment, None::<SourceSpan>)],
        RunmdV::Error => Seq::empty(),
    }
}

/// The theme tokens of a whole token stream, in order.
pub open spec fn spec_flat_tokens(ts: Seq<RunmdV>) -> Seq<(TokenV, Option<SourceSpan>)>
    decreases ts.len(),
{
    if ts.len() == 0 {
        Seq::empty()
    } else {
        spec_theme_tokens_of(ts[0]) + spec_flat_tokens(ts.drop_first())
    }
}

/// Appends the theme tokens of `t` to `out`.
fn push_theme_tokens(t: &Runmd, out: &mut Vec<ThemeToken>)
    ensures
        theme_tokens_view(final(out)@) == theme_tokens_view(old(out)@) + spec_theme_tokens_of(t@),
{
    match t {
        Runmd::BlockDelimitter(spans) => {
            if spans.len() > 0 {
                out.push((Token::Bracket, Some(spans[0])));
                if spans.len() == 3 {
                    out.push((Token::Identifier, Some(spans[1])));
                    out.push((Token::Keyword, Some(spans[2])));
                } else if spans.len() == 2 {
                    out.push((Token::Keyword, Some(spans[1])));
                }
            }
            proof {
                assert(theme_tokens_view(out@) =~= theme_tokens_view(old(out)@)
                    + spec_theme_tokens_of(t@));
            }
        },
        Runmd::BlockKeyword(spans) => {
            if spans.len() >= 1 {
                out.push((Token::Keyword, Some(spans[0])));
            }
            if spans.len() >= 2 {
                out.push((Token::Identifier, Some(spans[1])));
            }
            if spans.len() >= 3 {
                out.push((Token::Keyword, Some(spans[2])));
            }
            proof {
                assert(theme_tokens_view(out@) =~= theme_tokens_view(old(out)@)
                    + spec_theme_tokens_of(t@));
            }
        },
        Runmd::AttributeValue(a, b) => {
            out.push((Token::Keyword, Some(*a)));
            out.push((Token::Literal, Some(*b)));
            proof {
                assert(theme_tokens_view(out@) =~= theme_tokens_view(old(out)@)
                    + spec_theme_tokens_of(t@));
            }
        },
        Runmd::Comment => {
            out.push((Token::Comment, None));
            proof {
                assert(theme_tokens_view(out@) =~= theme_tokens_view(old(out)@)
                    + spec_theme_tokens_of(t@));
            }
        },
        Runmd::Error => {
            proof {
                assert(theme_tokens_view(out@) =~= theme_tokens_view(old(out)@)
                    + spec_theme_tokens_of(t@));
            }
        },
    }
}

fn flatten_from(ts: &Vec<Runmd>, i: usize, out: &mut Vec<ThemeToken>)
    requires
        i <= ts@.len(),
    ensures
        theme_tokens_view(final(out)@) == theme_tokens_view(old(out)@) + spec_flat_tokens(
            ts@.map_values(|t: Runmd| t@).skip(i as int),
        ),
    decreases ts@.len() - i,
{
    let ghost rest = ts@.map_values(|t: Runmd| t@).skip(i as int);
    if i >= ts.len() {
        proof {
            assert(rest =~= Seq::<RunmdV>::empty());
            assert(theme_tokens_view(out@) =~= theme_tokens_view(old(out)@) + spec_flat_tokens(
                rest,
            ));
        }
        return ;
    }
    proof {
        assert(rest[0] == ts@[i as int]@);
        assert(rest.drop_first() =~= ts@.map_values(|t: Runmd| t@).skip(i as int + 1));
    }
    push_theme_tokens(&ts[i], out);
    flatten_from(ts, i + 1, out);
    proof {
        assert(theme_tokens_view(out@) =~= theme_tokens_view(old(out)@) + spec_flat_tokens(rest));
    }
}

/// What parsing `source` against graph `g` produces: the normalized theme
/// tokens with the synthetic trailing whitespace span, and the graph after
/// the side effects of the scan.
pub open spec fn spec_parse_runmd(s: Seq<char>, g: GraphV) -> (
    Seq<(TokenV, Option<SourceSpan>)>,
    GraphV,
) {
    let (raw, g2) = spec_scan(s, 0, g);
    let norm = crate::theme::normalize_spans(spec_flat_tokens(raw), 0, s.len() as int);
    let e = crate::theme::tokens_end(norm, 0);
    (norm + seq![(TokenV::Whitespace, Some(span_of(e, s.len() as int)))], g2)
}

impl Runmd {
    /// Tokenizes `source`, writing attribute definitions and block state
    /// into `graph`. The result carries every span in bounds and in
    /// non-decreasing order, and always ends with one synthetic trailing
    /// token, tagged whitespace, that runs from the end of the last real
    /// token to the end of the source: a renderer can always cover
    /// everything typed so far.
    pub fn parse_with_graph(source: &str, graph: &mut StateGraph) -> (r: Vec<ThemeToken>)
        ensures
            theme_tokens_view(r@) == spec_parse_runmd(source@, old(graph)@).0,
            final(graph)@ == spec_parse_runmd(source@, old(graph)@).1,
            crate::theme::spans_wf(theme_tokens_view(r@), 0, source@.len() as int),
            crate::theme::tokens_end(theme_tokens_view(r@), 0) == source@.len(),
    {
        let len = source.unicode_len();
        let raw = Self::lex_with_graph(source, graph);
        let mut flat: Vec<ThemeToken> = Vec::new();
        proof {
            assert(theme_tokens_view(flat@) =~= Seq::<(TokenV, Option<SourceSpan>)>::empty());
        }
        flatten_from(&raw, 0, &mut flat);
        proof {
            assert(raw@.map_values(|t: Runmd| t@).skip(0) =~= raw@.map_values(|t: Runmd| t@));
        }
        let mut out: Vec<ThemeToken> = Vec::new();
        proof {
            assert(theme_tokens_view(out@) =~= Seq::<(TokenV, Option<SourceSpan>)>::empty());
        }
        crate::theme::normalize_from(&flat, 0, 0, len, &mut out);
        proof {
            assert(theme_tokens_view(flat@).skip(0) =~= theme_tokens_view(flat@));
            crate::theme::lemma_normalize_wf(theme_tokens_view(flat@), 0, len as int);
        }
        let e = crate::theme::tokens_end_exec(&out, 0, 0);
        proof {
            assert(theme_tokens_view(out@).skip(0) =~= theme_tokens_view(out@));
            crate::theme::lemma_append_trailing(
                theme_tokens_view(out@),
                0,
                len as int,
                TokenV::Whitespace,
            );
        }
        out.push((Token::Whitespace, Some(SourceSpan::new(e, len))));
        proof {
            assert(theme_tokens_view(out@) =~= spec_parse_runmd(source@, old(graph)@).0);
        }
        out
    }

    /// Tokenizes `source` against a scratch graph: the highlighting
    /// tokens alone, with the graph side effects discarded.
    pub fn parse(&self, content: &str) -> (r: Vec<ThemeToken>)
        ensures
            theme_tokens_view(r@) == spec_parse_runmd(content@, empty_graph()).0,
    {
        let mut g = StateGraph::new();
        Runmd::parse_with_graph(content, &mut g)
    }

    /// The raw token stream of `source`, scanned with a scratch graph.
    pub fn lex(source: &str) -> (r: Vec<Runmd>)
        ensures
            r@.map_values(|t: Runmd| t@) == spec_scan(source@, 0, empty_graph()).0,
    {
        let v = crate::text::str_to_chars(source);
        let mut g = StateGraph::new();
        let mut out: Vec<Runmd> = Vec::new();
        proof {
            assert(out@.map_values(|t: Runmd| t@) =~= Seq::<RunmdV>::empty());
        }
        scan_from(&v, 0, &mut g, &mut out);
        proof {
            assert(out@.map_values(|t: Runmd| t@) =~= spec_scan(source@, 0, empty_graph()).0);
        }
        out
    }

    /// The raw token stream of `source`, writing the graph side effects
    /// of block delimiters and events into `graph`.
    pub fn lex_with_graph(source: &str, graph: &mut StateGraph) -> (r: Vec<Runmd>)
        ensures
            ({
                let (ts, g2) = spec_scan(source@, 0, old(graph)@);
                r@.map_values(|t: Runmd| t@) == ts && final(graph)@ == g2
            }),
    {
        let v = crate::text::str_to_chars(source);
        let mut out: Vec<Runmd> = Vec::new();
        proof {
            assert(out@.map_values(|t: Runmd| t@) =~= Seq::<RunmdV>::empty());
        }
        scan_from(&v, 0, graph, &mut out);
        proof {
            assert(out@.map_values(|t: Runmd| t@) =~= spec_scan(source@, 0, old(graph)@).0);
        }
        out
    }
}

impl crate::theme::Grammer for Runmd {
    /// What tokenizing assigns, against a scratch graph.
    open spec fn parse_spec(&self, content: Seq<char>) -> Seq<(TokenV, Option<SourceSpan>)> {
        spec_parse_runmd(content, empty_graph()).0
    }

    /// Parse string content into tokens.
    fn parse(&self, content: &str) -> (r: Vec<ThemeToken>) {
        let mut g = StateGraph::new();
        Runmd::parse_with_graph(content, &mut g)
    }
}

} // verus!
