//! The element lexer of the `runmd` grammar: graph events, and the typed
//! elements that stand on one line after an event or a block delimiter.

use vstd::prelude::*;

use crate::graph::Value;
use crate::graph::ValueV;
use crate::numbers::check_float_chars;
use crate::numbers::is_digit;
use crate::numbers::is_float_string;
use crate::numbers::parse_bool_spec;
use crate::numbers::parse_bool_chars;
use crate::numbers::parse_i32_spec;
use crate::numbers::parse_i32_chars;
use crate::numbers::parse_u32_spec;
use crate::numbers::parse_u32_chars;
use crate::numbers::parsed_float_list;
use crate::numbers::parsed_i32_list;
use crate::numbers::collect_float_list;
use crate::numbers::collect_i32_list;
use crate::text::chars_to_string;
use crate::text::subrange_chars;
use crate::text::trim_chars;
use crate::text::trimmed;

verus! {

// ---------------------------------------------------------------------------
// Prefixes and character classes
// ---------------------------------------------------------------------------

/// Whether `pat` stands in `s` at `pos`.
pub open spec fn prefix_at(s: Seq<char>, pos: int, pat: Seq<char>) -> bool {
    &&& 0 <= pos
    &&& pos + pat.len() <= s.len()
    &&& forall|i: int| 0 <= i < pat.len() ==> s[pos + i] == #[trigger] pat[i]
}

/// Whether `pat` stands in `v` at `pos`.
pub fn has_prefix(v: &Vec<char>, pos: usize, pat: &str) -> (r: bool)
    ensures
        r == prefix_at(v@, pos as int, pat@),
{
    let m = pat.unicode_len();
    let n = v.len();
    if pos > n || m > n - pos {
        return false;
    }
    let mut i: usize = 0;
    while i < m
        invariant
            i <= m,
            m == pat@.len(),
            pos + m <= n,
            n == v@.len(),
            forall|j: int| 0 <= j < i ==> v@[pos + j] == #[trigger] pat@[j],
        decreases m - i,
    {
        if v[pos + i] != pat.get_char(i) {
            return false;
        }
        i = i + 1;
    }
    true
}

/// The whitespace the element lexer skips between tokens.
pub open spec fn is_skip_char(c: char) -> bool {
    c == ' ' || c == '\t' || c == '\n' || c == '\u{c}'
}

/// Whether `c` can start a symbol: an ASCII letter.
pub open spec fn is_symbol_start(c: char) -> bool {
    (65 <= c as u32 && c as u32 <= 90) || (97 <= c as u32 && c as u32 <= 122)
}

/// Whether `c` can continue a symbol: letters, digits, `-`, `.`, `_`, `:`.
pub open spec fn is_symbol_char(c: char) -> bool {
    is_symbol_start(c) || is_digit(c) || c == '-' || c == '.' || c == '_' || c == ':'
}

/// Whether `c` can continue a name: letters, digits, `_`, `.`, `/`.
pub open spec fn is_name_char(c: char) -> bool {
    is_symbol_start(c) || is_digit(c) || c == '_' || c == '.' || c == '/'
}

fn skip_char_check(c: char) -> (r: bool)
    ensures
        r == is_skip_char(c),
{
    c == ' ' || c == '\t' || c == '\n' || c == '\u{c}'
}

fn symbol_start_check(c: char) -> (r: bool)
    ensures
        r == is_symbol_start(c),
{
    let u = c as u32;
    (65 <= u && u <= 90) || (97 <= u && u <= 122)
}

fn symbol_char_check(c: char) -> (r: bool)
    ensures
        r == is_symbol_char(c),
{
    symbol_start_check(c) || crate::numbers::digit_check(c) || c == '-' || c == '.' || c == '_'
        || c == ':'
}

fn name_char_check(c: char) -> (r: bool)
    ensures
        r == is_name_char(c),
{
    symbol_start_check(c) || crate::numbers::digit_check(c) || c == '_' || c == '.' || c == '/'
}

/// First index at or after `from` that does not satisfy the skip class.
pub open spec fn skip_ws(s: Seq<char>, from: int) -> int
    decreases s.len() - from,
{
    if from < 0 || from >= s.len() {
        s.len() as int
    } else if is_skip_char(s[from]) {
        skip_ws(s, from + 1)
    } else {
        from
    }
}

proof fn lemma_skip_ws(s: Seq<char>, from: int)
    requires
        0 <= from <= s.len(),
    ensures
        from <= skip_ws(s, from) <= s.len(),
        skip_ws(s, from) < s.len() ==> !is_skip_char(s[skip_ws(s, from)]),
    decreases s.len() - from,
{
    if from < s.len() && is_skip_char(s[from]) {
        lemma_skip_ws(s, from + 1);
    }
}

fn skip_ws_exec(v: &Vec<char>, from: usize) -> (q: usize)
    requires
        from <= v@.len(),
    ensures
        q as int == skip_ws(v@, from as int),
{
    let n = v.len();
    let mut i = from;
    while i < n && skip_char_check(v[i])
        invariant
            from <= i <= n,
            n == v@.len(),
            skip_ws(v@, from as int) == skip_ws(v@, i as int),
        decreases n - i,
    {
        i = i + 1;
    }
    i
}

/// First index at or after `from` that is not a digit.
pub open spec fn digits_end(s: Seq<char>, from: int) -> int
    decreases s.len() - from,
{
    if from < 0 || from >= s.len() {
        s.len() as int
    } else if is_digit(s[from]) {
        digits_end(s, from + 1)
    } else {
        from
    }
}

proof fn lemma_digits_end(s: Seq<char>, from: int)
    requires
        0 <= from <= s.len(),
    ensures
        from <= digits_end(s, from) <= s.len(),
    decreases s.len() - from,
{
    if from < s.len() && is_digit(s[from]) {
        lemma_digits_end(s, from + 1);
    }
}

fn digits_end_exec(v: &Vec<char>, from: usize) -> (e: usize)
    requires
        from <= v@.len(),
    ensures
        e as int == digits_end(v@, from as int),
{
    let n = v.len();
    let mut i = from;
    while i < n && crate::numbers::digit_check(v[i])
        invariant
            from <= i <= n,
            n == v@.len(),
            digits_end(v@, from as int) == digits_end(v@, i as int),
        decreases n - i,
    {
        i = i + 1;
    }
    i
}

/// First index at or after `from` that cannot continue a symbol.
pub open spec fn symbol_end(s: Seq<char>, from: int) -> int
    decreases s.len() - from,
{
    if from < 0 || from >= s.len() {
        s.len() as int
    } else if is_symbol_char(s[from]) {
        symbol_end(s, from + 1)
    } else {
        from
    }
}

proof fn lemma_symbol_end(s: Seq<char>, from: int)
    requires
        0 <= from <= s.len(),
    ensures
        from <= symbol_end(s, from) <= s.len(),
    decreases s.len() - from,
{
    if from < s.len() && is_symbol_char(s[from]) {
        lemma_symbol_end(s, from + 1);
    }
}

fn symbol_end_exec(v: &Vec<char>, from: usize) -> (e: usize)
    requires
        from <= v@.len(),
    ensures
        e as int == symbol_end(v@, from as int),
{
    let n = v.len();
    let mut i = from;
    while i < n && symbol_char_check(v[i])
        invariant
            from <= i <= n,
            n == v@.len(),
            symbol_end(v@, from as int) == symbol_end(v@, i as int),
        decreases n - i,
    {
        i = i + 1;
    }
    i
}

/// First index at or after `from` that cannot continue a name.
pub open spec fn name_end(s: Seq<char>, from: int) -> int
    decreases s.len() - from,
{
    if from < 0 || from >= s.len() {
        s.len() as int
    } else if is_name_char(s[from]) {
        name_end(s, from + 1)
    } else {
        from
    }
}

proof fn lemma_name_end(s: Seq<char>, from: int)
    requires
        0 <= from <= s.len(),
    ensures
        from <= name_end(s, from) <= s.len(),
    decreases s.len() - from,
{
    if from < s.len() && is_name_char(s[from]) {
        lemma_name_end(s, from + 1);
    }
}

fn name_end_exec(v: &Vec<char>, from: usize) -> (e: usize)
    requires
        from <= v@.len(),
    ensures
        e as int == name_end(v@, from as int),
{
    let n = v.len();
    let mut i = from;
    while i < n && name_char_check(v[i])
        invariant
            from <= i <= n,
            n == v@.len(),
            name_end(v@, from as int) == name_end(v@, i as int),
        decreases n - i,
    {
        i = i + 1;
    }
    i
}

// ---------------------------------------------------------------------------
// Graph events
// ---------------------------------------------------------------------------

/// The events the `runmd` grammar recognizes at the start of a line.
#[derive(Clone, Copy, Debug, PartialEq, Eq, Structural)]
pub enum AttributeGraphEvents {
    /// `add {attribute-name} {value-type} {value}`, also spelled `+`.
    Add,
    /// `define {attribute-name} {symbol-name} {value-type} {value}`, also
    /// spelled `:`.
    Define,
    /// A comment marker: the rest of the line is ignored.
    Comment,
    /// The block delimiter.
    BlockDelimitter,
    /// Anything else.
    Error,
}

/// The first event token standing at the start of `s`, longest match
/// first.
pub open spec fn spec_classify_event(s: Seq<char>) -> AttributeGraphEvents {
    if prefix_at(s, 0, "``` runmd"@) {
        AttributeGraphEvents::Comment
    } else if prefix_at(s, 0, "``` md"@) {
        AttributeGraphEvents::Comment
    } else if prefix_at(s, 0, "define"@) {
        AttributeGraphEvents::Define
    } else if prefix_at(s, 0, "```"@) {
        AttributeGraphEvents::BlockDelimitter
    } else if prefix_at(s, 0, "add"@) {
        AttributeGraphEvents::Add
    } else if prefix_at(s, 0, "//"@) {
        AttributeGraphEvents::Comment
    } else if prefix_at(s, 0, "#"@) {
        AttributeGraphEvents::Comment
    } else if prefix_at(s, 0, "-"@) {
        AttributeGraphEvents::Comment
    } else if prefix_at(s, 0, "+"@) {
        AttributeGraphEvents::Add
    } else if prefix_at(s, 0, ":"@) {
        AttributeGraphEvents::Define
    } else {
        AttributeGraphEvents::Error
    }
}

/// Classifies the event token standing at the start of `slice`.
pub fn classify_event(slice: &str) -> (r: AttributeGraphEvents)
    ensures
        r == spec_classify_event(slice@),
{
    let v = crate::text::str_to_chars(slice);
    if has_prefix(&v, 0, "``` runmd") {
        AttributeGraphEvents::Comment
    } else if has_prefix(&v, 0, "``` md") {
        AttributeGraphEvents::Comment
    } else if has_prefix(&v, 0, "define") {
        AttributeGraphEvents::Define
    } else if has_prefix(&v, 0, "```") {
        AttributeGraphEvents::BlockDelimitter
    } else if has_prefix(&v, 0, "add") {
        AttributeGraphEvents::Add
    } else if has_prefix(&v, 0, "//") {
        AttributeGraphEvents::Comment
    } else if has_prefix(&v, 0, "#") {
        AttributeGraphEvents::Comment
    } else if has_prefix(&v, 0, "-") {
        AttributeGraphEvents::Comment
    } else if has_prefix(&v, 0, "+") {
        AttributeGraphEvents::Add
    } else if has_prefix(&v, 0, ":") {
        AttributeGraphEvents::Define
    } else {
        AttributeGraphEvents::Error
    }
}

// ---------------------------------------------------------------------------
// Elements
// ---------------------------------------------------------------------------

/// Elements contained within an attribute graph line.
#[derive(Clone, Debug, PartialEq)]
pub enum AttributeGraphElements {
    /// Text element: all remaining text after the tag, trimmed.
    Text(Value),
    /// Boolean element.
    Bool(Value),
    /// Integer element.
    Int(Value),
    /// Two comma-delimited integers.
    IntPair(Value),
    /// Three comma-delimited integers.
    IntRange(Value),
    /// One decimal number.
    Float(Value),
    /// Two comma-delimited decimal numbers.
    FloatPair(Value),
    /// Three comma-delimited decimal numbers.
    FloatRange(Value),
    /// Base64-encoded binary data.
    BinaryVector(Value),
    /// A symbol-quality value.
    SymbolValue(Value),
    /// The empty element.
    Empty,
    /// An entity identifier: a run of digits.
    Entity(u32),
    /// A symbol: a letter followed by letters, digits, `-._:`.
    Symbol(String),
    /// A name: `#` followed by letters, digits, `_./`.
    Name(String),
    /// Anything else.
    Error,
}

/// The mathematical value of an [`AttributeGraphElements`].
pub enum ElementV {
    Text(ValueV),
    Bool(ValueV),
    Int(ValueV),
    IntPair(ValueV),
    IntRange(ValueV),
    Float(ValueV),
    FloatPair(ValueV),
    FloatRange(ValueV),
    BinaryVector(ValueV),
    SymbolValue(ValueV),
    Empty,
    Entity(u32),
    Symbol(Seq<char>),
    Name(Seq<char>),
    Error,
}

impl View for AttributeGraphElements {
    type V = ElementV;

    open spec fn view(&self) -> ElementV {
        match self {
            AttributeGraphElements::Text(v) => ElementV::Text(v@),
            AttributeGraphElements::Bool(v) => ElementV::Bool(v@),
            AttributeGraphElements::Int(v) => ElementV::Int(v@),
            AttributeGraphElements::IntPair(v) => ElementV::IntPair(v@),
            AttributeGraphElements::IntRange(v) => ElementV::IntRange(v@),
            AttributeGraphElements::Float(v) => ElementV::Float(v@),
            AttributeGraphElements::FloatPair(v) => ElementV::FloatPair(v@),
            AttributeGraphElements::FloatRange(v) => ElementV::FloatRange(v@),
            AttributeGraphElements::BinaryVector(v) => ElementV::BinaryVector(v@),
            AttributeGraphElements::SymbolValue(v) => ElementV::SymbolValue(v@),
            AttributeGraphElements::Empty => ElementV::Empty,
            AttributeGraphElements::Entity(n) => ElementV::Entity(*n),
            AttributeGraphElements::Symbol(s) => ElementV::Symbol(s@),
            AttributeGraphElements::Name(s) => ElementV::Name(s@),
            AttributeGraphElements::Error => ElementV::Error,
        }
    }
}

/// What an attribute's value is decoded from base64 text: the name for
/// what `base64::decode` returns.
pub uninterp spec fn base64_decode_of(s: Seq<char>) -> Option<Seq<u8>>;

/// Relies on base64::decode: the standard alphabet with padding; success
/// and the decoded bytes depend on the characters alone.
#[verifier::external_body]
fn decode_base64(s: &str) -> (r: Option<Vec<u8>>)
    ensures
        match r {
            Some(v) => base64_decode_of(s@) == Some(v@),
            None => base64_decode_of(s@) is None,
        },
{
    match base64::decode(s) {
        Ok(content) => Some(content),
        Err(_) => None,
    }
}

/// The value-typed tags, in the order a longest-match lexer tries them.
#[derive(Clone, Copy, Debug, PartialEq, Eq, Structural)]
pub enum ValueTag {
    Text,
    Enable,
    Disable,
    Bool,
    Int,
    IntPair,
    IntRange,
    Float,
    FloatPair,
    FloatRange,
    Bin,
    SymbolVal,
    Empty,
}

/// The tag standing at `q` in `s`, with its length; longest match first.
pub open spec fn spec_tag_at(s: Seq<char>, q: int) -> Option<(ValueTag, int)> {
    if prefix_at(s, q, ".BINARY_VECTOR"@) {
        Some((ValueTag::Bin, ".BINARY_VECTOR"@.len() as int))
    } else if prefix_at(s, q, ".FLOAT_RANGE"@) {
        Some((ValueTag::FloatRange, ".FLOAT_RANGE"@.len() as int))
    } else if prefix_at(s, q, ".FLOAT_PAIR"@) {
        Some((ValueTag::FloatPair, ".FLOAT_PAIR"@.len() as int))
    } else if prefix_at(s, q, ".INT_RANGE"@) {
        Some((ValueTag::IntRange, ".INT_RANGE"@.len() as int))
    } else if prefix_at(s, q, ".int_range"@) {
        Some((ValueTag::IntRange, ".int_range"@.len() as int))
    } else if prefix_at(s, q, ".INT_PAIR"@) {
        Some((ValueTag::IntPair, ".INT_PAIR"@.len() as int))
    } else if prefix_at(s, q, ".disable"@) {
        Some((ValueTag::Disable, ".disable"@.len() as int))
    } else if prefix_at(s, q, ".enable"@) {
        Some((ValueTag::Enable, ".enable"@.len() as int))
    } else if prefix_at(s, q, ".float2"@) {
        Some((ValueTag::FloatPair, ".float2"@.len() as int))
    } else if prefix_at(s, q, ".float3"@) {
        Some((ValueTag::FloatRange, ".float3"@.len() as int))
    } else if prefix_at(s, q, ".base64"@) {
        Some((ValueTag::Bin, ".base64"@.len() as int))
    } else if prefix_at(s, q, ".symbol"@) {
        Some((ValueTag::SymbolVal, ".symbol"@.len() as int))
    } else if prefix_at(s, q, ".float"@) {
        Some((ValueTag::Float, ".float"@.len() as int))
    } else if prefix_at(s, q, ".FLOAT"@) {
        Some((ValueTag::Float, ".FLOAT"@.len() as int))
    } else if prefix_at(s, q, ".empty"@) {
        Some((ValueTag::Empty, ".empty"@.len() as int))
    } else if prefix_at(s, q, ".EMPTY"@) {
        Some((ValueTag::Empty, ".EMPTY"@.len() as int))
    } else if prefix_at(s, q, ".text"@) {
        Some((ValueTag::Text, ".text"@.len() as int))
    } else if prefix_at(s, q, ".TEXT"@) {
        Some((ValueTag::Text, ".TEXT"@.len() as int))
    } else if prefix_at(s, q, ".bool"@) {
        Some((ValueTag::Bool, ".bool"@.len() as int))
    } else if prefix_at(s, q, ".BOOL"@) {
        Some((ValueTag::Bool, ".BOOL"@.len() as int))
    } else if prefix_at(s, q, ".int2"@) {
        Some((ValueTag::IntPair, ".int2"@.len() as int))
    } else if prefix_at(s, q, ".int3"@) {
        Some((ValueTag::IntRange, ".int3"@.len() as int))
    } else if prefix_at(s, q, ".int"@) {
        Some((ValueTag::Int, ".int"@.len() as int))
    } else if prefix_at(s, q, ".INT"@) {
        Some((ValueTag::Int, ".INT"@.len() as int))
    } else if prefix_at(s, q, ".bin"@) {
        Some((ValueTag::Bin, ".bin"@.len() as int))
    } else {
        None
    }
}

/// The tag standing at `q` in `v`, with its length.
pub fn tag_at(v: &Vec<char>, q: usize) -> (r: Option<(ValueTag, usize)>)
    ensures
        match r {
            Some((t, m)) => spec_tag_at(v@, q as int) == Some((t, m as int)),
            None => spec_tag_at(v@, q as int) is None,
        },
{
    if has_prefix(v, q, ".BINARY_VECTOR") {
        Some((ValueTag::Bin, ".BINARY_VECTOR".unicode_len()))
    } else if has_prefix(v, q, ".FLOAT_RANGE") {
        Some((ValueTag::FloatRange, ".FLOAT_RANGE".unicode_len()))
    } else if has_prefix(v, q, ".FLOAT_PAIR") {
        Some((ValueTag::FloatPair, ".FLOAT_PAIR".unicode_len()))
    } else if has_prefix(v, q, ".INT_RANGE") {
        Some((ValueTag::IntRange, ".INT_RANGE".unicode_len()))
    } else if has_prefix(v, q, ".int_range") {
        Some((ValueTag::IntRange, ".int_range".unicode_len()))
    } else if has_prefix(v, q, ".INT_PAIR") {
        Some((ValueTag::IntPair, ".INT_PAIR".unicode_len()))
    } else if has_prefix(v, q, ".disable") {
        Some((ValueTag::Disable, ".disable".unicode_len()))
    } else if has_prefix(v, q, ".enable") {
        Some((ValueTag::Enable, ".enable".unicode_len()))
    } else if has_prefix(v, q, ".float2") {
        Some((ValueTag::FloatPair, ".float2".unicode_len()))
    } else if has_prefix(v, q, ".float3") {
        Some((ValueTag::FloatRange, ".float3".unicode_len()))
    } else if has_prefix(v, q, ".base64") {
        Some((ValueTag::Bin, ".base64".unicode_len()))
    } else if has_prefix(v, q, ".symbol") {
        Some((ValueTag::SymbolVal, ".symbol".unicode_len()))
    } else if has_prefix(v, q, ".float") {
        Some((ValueTag::Float, ".float".unicode_len()))
    } else if has_prefix(v, q, ".FLOAT") {
        Some((ValueTag::Float, ".FLOAT".unicode_len()))
    } else if has_prefix(v, q, ".empty") {
        Some((ValueTag::Empty, ".empty".unicode_len()))
    } else if has_prefix(v, q, ".EMPTY") {
        Some((ValueTag::Empty, ".EMPTY".unicode_len()))
    } else if has_prefix(v, q, ".text") {
        Some((ValueTag::Text, ".text".unicode_len()))
    } else if has_prefix(v, q, ".TEXT") {
        Some((ValueTag::Text, ".TEXT".unicode_len()))
    } else if has_prefix(v, q, ".bool") {
        Some((ValueTag::Bool, ".bool".unicode_len()))
    } else if has_prefix(v, q, ".BOOL") {
        Some((ValueTag::Bool, ".BOOL".unicode_len()))
    } else if has_prefix(v, q, ".int2") {
        Some((ValueTag::IntPair, ".int2".unicode_len()))
    } else if has_prefix(v, q, ".int3") {
        Some((ValueTag::IntRange, ".int3".unicode_len()))
    } else if has_prefix(v, q, ".int") {
        Some((ValueTag::Int, ".int".unicode_len()))
    } else if has_prefix(v, q, ".INT") {
        Some((ValueTag::Int, ".INT".unicode_len()))
    } else if has_prefix(v, q, ".bin") {
        Some((ValueTag::Bin, ".bin".unicode_len()))
    } else {
        None
    }
}

/// The tag lengths, for progress and bounds reasoning.
pub proof fn lemma_tag_at_bounds(s: Seq<char>, q: int)
    requires
        0 <= q <= s.len(),
        spec_tag_at(s, q) is Some,
    ensures
        ({
            let (t, m) = spec_tag_at(s, q)->Some_0;
            1 <= m && q + m <= s.len()
        }),
{
    reveal_strlit(".BINARY_VECTOR");
    reveal_strlit(".FLOAT_RANGE");
    reveal_strlit(".FLOAT_PAIR");
    reveal_strlit(".INT_RANGE");
    reveal_strlit(".int_range");
    reveal_strlit(".INT_PAIR");
    reveal_strlit(".disable");
    reveal_strlit(".enable");
    reveal_strlit(".float2");
    reveal_strlit(".float3");
    reveal_strlit(".base64");
    reveal_strlit(".symbol");
    reveal_strlit(".float");
    reveal_strlit(".FLOAT");
    reveal_strlit(".empty");
    reveal_strlit(".EMPTY");
    reveal_strlit(".text");
    reveal_strlit(".TEXT");
    reveal_strlit(".bool");
    reveal_strlit(".BOOL");
    reveal_strlit(".int2");
    reveal_strlit(".int3");
    reveal_strlit(".int");
    reveal_strlit(".INT");
    reveal_strlit(".bin");
}

/// The element a value tag stands for, given the remainder of the line
/// after the tag.
pub open spec fn spec_elem_for_tag(tag: ValueTag, rest: Seq<char>) -> ElementV {
    match tag {
        ValueTag::Text => ElementV::Text(ValueV::TextBuffer(trimmed(rest))),
        ValueTag::Enable => ElementV::Bool(ValueV::Bool(true)),
        ValueTag::Disable => ElementV::Bool(ValueV::Bool(false)),
        ValueTag::Bool => match parse_bool_spec(trimmed(rest)) {
            Some(b) => ElementV::Bool(ValueV::Bool(b)),
            None => ElementV::Error,
        },
        ValueTag::Int => match parse_i32_spec(trimmed(rest)) {
            Some(n) => ElementV::Int(ValueV::Int(n)),
            None => ElementV::Error,
        },
        ValueTag::IntPair => {
            let l = parsed_i32_list(trimmed(rest));
            if l.len() >= 2 {
                ElementV::IntPair(ValueV::IntPair(l[0], l[1]))
            } else {
                ElementV::Error
            }
        },
        ValueTag::IntRange => {
            let l = parsed_i32_list(trimmed(rest));
            if l.len() >= 3 {
                ElementV::IntRange(ValueV::IntRange(l[0], l[1], l[2]))
            } else {
                ElementV::Error
            }
        },
        ValueTag::Float => {
            if is_float_string(trimmed(rest)) {
                ElementV::Float(ValueV::Float(trimmed(rest)))
            } else {
                ElementV::Error
            }
        },
        ValueTag::FloatPair => {
            let l = parsed_float_list(trimmed(rest));
            if l.len() >= 2 {
                ElementV::FloatPair(ValueV::FloatPair(l[0], l[1]))
            } else {
                ElementV::Error
            }
        },
        ValueTag::FloatRange => {
            let l = parsed_float_list(trimmed(rest));
            if l.len() >= 3 {
                ElementV::FloatRange(ValueV::FloatRange(l[0], l[1], l[2]))
            } else {
                ElementV::Error
            }
        },
        ValueTag::Bin => match base64_decode_of(trimmed(rest)) {
            Some(b) => ElementV::BinaryVector(ValueV::BinaryVector(b)),
            None => ElementV::Error,
        },
        ValueTag::SymbolVal => ElementV::SymbolValue(ValueV::Symbol(trimmed(rest))),
        ValueTag::Empty => ElementV::Empty,
    }
}

/// Builds the element a value tag stands for.
fn elem_for_tag(tag: ValueTag, rest: Vec<char>) -> (e: AttributeGraphElements)
    ensures
        e@ == spec_elem_for_tag(tag, rest@),
{
    match tag {
        ValueTag::Text => {
            let t = trim_chars(&rest);
            AttributeGraphElements::Text(Value::TextBuffer(chars_to_string(&t)))
        },
        ValueTag::Enable => AttributeGraphElements::Bool(Value::Bool(true)),
        ValueTag::Disable => AttributeGraphElements::Bool(Value::Bool(false)),
        ValueTag::Bool => {
            let t = trim_chars(&rest);
            match parse_bool_chars(&t) {
                Some(b) => AttributeGraphElements::Bool(Value::Bool(b)),
                None => AttributeGraphElements::Error,
            }
        },
        ValueTag::Int => {
            let t = trim_chars(&rest);
            match parse_i32_chars(&t) {
                Some(n) => AttributeGraphElements::Int(Value::Int(n)),
                None => AttributeGraphElements::Error,
            }
        },
        ValueTag::IntPair => {
            let t = trim_chars(&rest);
            let l = collect_i32_list(&t, 0);
            proof {
                assert(t@.skip(0) =~= t@);
            }
            if l.len() >= 2 {
                AttributeGraphElements::IntPair(Value::IntPair(l[0], l[1]))
            } else {
                AttributeGraphElements::Error
            }
        },
        ValueTag::IntRange => {
            let t = trim_chars(&rest);
            let l = collect_i32_list(&t, 0);
            proof {
                assert(t@.skip(0) =~= t@);
            }
            if l.len() >= 3 {
                AttributeGraphElements::IntRange(Value::IntRange(l[0], l[1], l[2]))
            } else {
                AttributeGraphElements::Error
            }
        },
        ValueTag::Float => {
            let t = trim_chars(&rest);
            if check_float_chars(&t) {
                AttributeGraphElements::Float(Value::Float(chars_to_string(&t)))
            } else {
                AttributeGraphElements::Error
            }
        },
        ValueTag::FloatPair => {
            let t = trim_chars(&rest);
            let l = collect_float_list(&t, 0);
            proof {
                assert(t@.skip(0) =~= t@);
            }
            if l.len() >= 2 {
                proof {
                    assert(l@.map_values(|x: Vec<char>| x@)[0] == l@[0]@);
                    assert(l@.map_values(|x: Vec<char>| x@)[1] == l@[1]@);
                }
                AttributeGraphElements::FloatPair(
                    Value::FloatPair(chars_to_string(&l[0]), chars_to_string(&l[1])),
                )
            } else {
                AttributeGraphElements::Error
            }
        },
        ValueTag::FloatRange => {
            let t = trim_chars(&rest);
            let l = collect_float_list(&t, 0);
            proof {
                assert(t@.skip(0) =~= t@);
            }
            if l.len() >= 3 {
                proof {
                    assert(l@.map_values(|x: Vec<char>| x@)[0] == l@[0]@);
                    assert(l@.map_values(|x: Vec<char>| x@)[1] == l@[1]@);
                    assert(l@.map_values(|x: Vec<char>| x@)[2] == l@[2]@);
                }
                AttributeGraphElements::FloatRange(
                    Value::FloatRange(
                        chars_to_string(&l[0]),
                        chars_to_string(&l[1]),
                        chars_to_string(&l[2]),
                    ),
                )
            } else {
                AttributeGraphElements::Error
            }
        },
        ValueTag::Bin => {
            let t = trim_chars(&rest);
            let text = chars_to_string(&t);
            match decode_base64(text.as_str()) {
                Some(bytes) => AttributeGraphElements::BinaryVector(Value::BinaryVector(bytes)),
                None => AttributeGraphElements::Error,
            }
        },
        ValueTag::SymbolVal => {
            let t = trim_chars(&rest);
            AttributeGraphElements::SymbolValue(Value::Symbol(chars_to_string(&t)))
        },
        ValueTag::Empty => AttributeGraphElements::Empty,
    }
}

/// The element standing at the non-whitespace position `q`, and where the
/// lexer resumes after it.
pub open spec fn spec_element_at(s: Seq<char>, q: int) -> (ElementV, int) {
    match spec_tag_at(s, q) {
        Some((tag, m)) => (spec_elem_for_tag(tag, s.skip(q + m)), q + m),
        None => {
            if is_digit(s[q]) {
                let e = digits_end(s, q);
                (
                    match parse_u32_spec(s.subrange(q, e)) {
                        Some(n) => ElementV::Entity(n),
                        None => ElementV::Error,
                    },
                    e,
                )
            } else if is_symbol_start(s[q]) {
                let e = symbol_end(s, q);
                (ElementV::Symbol(s.subrange(q, e)), e)
            } else if s[q] == '#' {
                let e = name_end(s, q + 1);
                (ElementV::Name(s.subrange(q + 1, e)), e)
            } else {
                (ElementV::Error, q + 1)
            }
        },
    }
}

/// The element step stays within bounds and makes progress.
pub proof fn lemma_element_at_bounds(s: Seq<char>, q: int)
    requires
        0 <= q < s.len(),
    ensures
        q < spec_element_at(s, q).1 <= s.len(),
{
    match spec_tag_at(s, q) {
        Some((tag, m)) => {
            lemma_tag_at_bounds(s, q);
        },
        None => {
            if is_digit(s[q]) {
                lemma_digits_end(s, q);
                assert(digits_end(s, q) == digits_end(s, q + 1));
                lemma_digits_end(s, q + 1);
            } else if is_symbol_start(s[q]) {
                lemma_symbol_end(s, q);
                assert(is_symbol_char(s[q]));
                assert(symbol_end(s, q) == symbol_end(s, q + 1));
                lemma_symbol_end(s, q + 1);
            } else if s[q] == '#' {
                lemma_name_end(s, q + 1);
            } else {
            }
        },
    }
}

/// The element standing at the non-whitespace position `q` of `v`.
fn element_at(v: &Vec<char>, q: usize) -> (r: (AttributeGraphElements, usize))
    requires
        q < v@.len(),
    ensures
        (r.0@, r.1 as int) == spec_element_at(v@, q as int),
        q < r.1 <= v@.len(),
{
    let _n: usize = v.len();
    proof {
        lemma_element_at_bounds(v@, q as int);
    }
    match tag_at(v, q) {
        Some((tag, m)) => {
            proof {
                lemma_tag_at_bounds(v@, q as int);
            }
            let rest = subrange_chars(v, q + m, v.len());
            proof {
                assert(rest@ =~= v@.skip(q as int + m as int));
            }
            let e = elem_for_tag(tag, rest);
            (e, q + m)
        },
        None => {
            let c = v[q];
            if crate::numbers::digit_check(c) {
                let e = digits_end_exec(v, q);
                proof {
                    lemma_digits_end(v@, q as int);
                    assert(digits_end(v@, q as int) == digits_end(v@, q as int + 1));
                }
                let slice = subrange_chars(v, q, e);
                match parse_u32_chars(&slice) {
                    Some(n) => (AttributeGraphElements::Entity(n), e),
                    None => (AttributeGraphElements::Error, e),
                }
            } else if symbol_start_check(c) {
                let e = symbol_end_exec(v, q);
                proof {
                    lemma_symbol_end(v@, q as int);
                    assert(is_symbol_char(v@[q as int]));
                    assert(symbol_end(v@, q as int) == symbol_end(v@, q as int + 1));
                    lemma_symbol_end(v@, q as int + 1);
                }
                let slice = subrange_chars(v, q, e);
                (AttributeGraphElements::Symbol(chars_to_string(&slice)), e)
            } else if c == '#' {
                let e = name_end_exec(v, q + 1);
                proof {
                    lemma_name_end(v@, q as int + 1);
                }
                let slice = subrange_chars(v, q + 1, e);
                (AttributeGraphElements::Name(chars_to_string(&slice)), e)
            } else {
                (AttributeGraphElements::Error, q + 1)
            }
        },
    }
}

/// The `k`-th element of `s` starting at `pos`, with the span it covers:
/// what a spanned lexer iteration hands out.
pub open spec fn spec_nth_element(s: Seq<char>, pos: int, k: int) -> Option<(ElementV, int, int)>
    decreases s.len() - pos, k + 1,
    via spec_nth_element_decreases
{
    let q = skip_ws(s, pos);
    if q >= s.len() || pos < 0 || pos > s.len() || k < 0 {
        None
    } else {
        let (e, end) = spec_element_at(s, q);
        if k == 0 {
            Some((e, q, end))
        } else {
            spec_nth_element(s, end, k - 1)
        }
    }
}

#[via_fn]
proof fn spec_nth_element_decreases(s: Seq<char>, pos: int, k: int) {
    if 0 <= pos <= s.len() {
        lemma_skip_ws(s, pos);
        let q = skip_ws(s, pos);
        if q < s.len() {
            lemma_element_at_bounds(s, q);
        }
    }
}

/// Elements stand inside the line, in order: a present element starts at
/// or after `pos + k` and ends strictly after it starts.
pub proof fn lemma_nth_element_bounds(s: Seq<char>, pos: int, k: int)
    requires
        0 <= pos <= s.len(),
        0 <= k,
    ensures
        match spec_nth_element(s, pos, k) {
            Some((e, st, en)) => pos + k <= st && st < en && en <= s.len(),
            None => true,
        },
    decreases k,
{
    let q = skip_ws(s, pos);
    lemma_skip_ws(s, pos);
    if q < s.len() {
        lemma_element_at_bounds(s, q);
        let end = spec_element_at(s, q).1;
        if k > 0 {
            lemma_nth_element_bounds(s, end, k - 1);
        }
    }
}

/// The `k`-th element of `v` starting at `pos`, with its span.
pub fn nth_element(v: &Vec<char>, pos: usize, k: usize) -> (r: Option<
    (AttributeGraphElements, usize, usize),
>)
    requires
        pos <= v@.len(),
    ensures
        match r {
            Some((e, start, end)) => spec_nth_element(v@, pos as int, k as int) == Some(
                (e@, start as int, end as int),
            ),
            None => spec_nth_element(v@, pos as int, k as int) is None,
        },
    decreases v@.len() - pos,
{
    let q = skip_ws_exec(v, pos);
    proof {
        lemma_skip_ws(v@, pos as int);
    }
    if q >= v.len() {
        return None;
    }
    let (e, end) = element_at(v, q);
    if k == 0 {
        Some((e, q, end))
    } else {
        nth_element(v, end, k - 1)
    }
}

} // verus!
