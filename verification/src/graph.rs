//! The state graph: a small key/value attribute store mutated as a side
//! effect of parsing `runmd` events, plus the block the parser currently
//! stands in.

use vstd::prelude::*;

verus! {

/// A typed attribute value. Numeric text kinds hold the decimal lexeme as
/// written in the source; the machine-float interpretation is left to the
/// consumer.
#[derive(Clone, Debug, PartialEq)]
pub enum Value {
    /// No payload.
    Empty,
    /// A boolean.
    Bool(bool),
    /// Free text: the trimmed remainder of the line.
    TextBuffer(String),
    /// One integer.
    Int(i32),
    /// Two comma-separated integers.
    IntPair(i32, i32),
    /// Three comma-separated integers: start, end and step semantics are
    /// caller-defined.
    IntRange(i32, i32, i32),
    /// One decimal number, kept as its source text.
    Float(String),
    /// Two comma-separated decimal numbers, kept as their source text.
    FloatPair(String, String),
    /// Three comma-separated decimal numbers, kept as their source text.
    FloatRange(String, String, String),
    /// Bytes decoded from base64 text.
    BinaryVector(Vec<u8>),
    /// A value of symbolic quality, usable as an identifier.
    Symbol(String),
}

/// The mathematical value of a [`Value`].
pub enum ValueV {
    Empty,
    Bool(bool),
    TextBuffer(Seq<char>),
    Int(i32),
    IntPair(i32, i32),
    IntRange(i32, i32, i32),
    Float(Seq<char>),
    FloatPair(Seq<char>, Seq<char>),
    FloatRange(Seq<char>, Seq<char>, Seq<char>),
    BinaryVector(Seq<u8>),
    Symbol(Seq<char>),
}

impl View for Value {
    type V = ValueV;

    open spec fn view(&self) -> ValueV {
        match self {
            Value::Empty => ValueV::Empty,
            Value::Bool(b) => ValueV::Bool(*b),
            Value::TextBuffer(s) => ValueV::TextBuffer(s@),
            Value::Int(a) => ValueV::Int(*a),
            Value::IntPair(a, b) => ValueV::IntPair(*a, *b),
            Value::IntRange(a, b, c) => ValueV::IntRange(*a, *b, *c),
            Value::Float(a) => ValueV::Float(a@),
            Value::FloatPair(a, b) => ValueV::FloatPair(a@, b@),
            Value::FloatRange(a, b, c) => ValueV::FloatRange(a@, b@, c@),
            Value::BinaryVector(v) => ValueV::BinaryVector(v@),
            Value::Symbol(s) => ValueV::Symbol(s@),
        }
    }
}

/// One attribute of the graph: a name, an optional symbol qualifier, and
/// a typed value.
#[derive(Clone, Debug, PartialEq)]
pub struct Attribute {
    /// The attribute name.
    pub name: String,
    /// The symbol qualifier, present for `define`d attributes.
    pub symbol: Option<String>,
    /// The attribute's value.
    pub value: Value,
}

/// The view of an optional borrowed string.
pub open spec fn opt_str_view(o: Option<&str>) -> Option<Seq<char>> {
    match o {
        Some(s) => Some(s@),
        None => None,
    }
}

/// The view of an optional string.
pub open spec fn opt_string_view(o: Option<String>) -> Option<Seq<char>> {
    match o {
        Some(s) => Some(s@),
        None => None,
    }
}

/// The mathematical value of an [`Attribute`].
pub struct AttributeV {
    pub name: Seq<char>,
    pub symbol: Option<Seq<char>>,
    pub value: ValueV,
}

impl View for Attribute {
    type V = AttributeV;

    open spec fn view(&self) -> AttributeV {
        AttributeV {
            name: self.name@,
            symbol: opt_string_view(self.symbol),
            value: self.value@,
        }
    }
}

/// The block the parser currently stands in.
#[derive(Clone, Debug, PartialEq)]
pub struct Block {
    /// The block's name.
    pub name: String,
    /// The block's kind.
    pub kind: String,
}

/// The mathematical value of a [`Block`].
pub struct BlockV {
    pub name: Seq<char>,
    pub kind: Seq<char>,
}

impl View for Block {
    type V = BlockV;

    open spec fn view(&self) -> BlockV {
        BlockV { name: self.name@, kind: self.kind@ }
    }
}

/// The mathematical state of a [`StateGraph`].
#[verifier::ext_equal]
pub struct GraphV {
    /// Attribute writes, oldest first; the latest entry for a key wins.
    pub entries: Seq<AttributeV>,
    /// The open block, if any.
    pub block: Option<BlockV>,
}

/// A graph holding nothing, outside any block.
pub open spec fn empty_graph() -> GraphV {
    GraphV { entries: Seq::empty(), block: None }
}

/// `g` after `add {name} {value}`.
pub open spec fn graph_add(g: GraphV, name: Seq<char>, value: ValueV) -> GraphV {
    GraphV {
        entries: g.entries.push(AttributeV { name, symbol: None, value }),
        block: g.block,
    }
}

/// `g` after `define {name} {symbol} {value}`.
pub open spec fn graph_define(
    g: GraphV,
    name: Seq<char>,
    symbol: Seq<char>,
    value: ValueV,
) -> GraphV {
    GraphV {
        entries: g.entries.push(AttributeV { name, symbol: Some(symbol), value }),
        block: g.block,
    }
}

/// `g` after a block delimiter that names a new block and its kind.
pub open spec fn graph_open_block(g: GraphV, name: Seq<char>, kind: Seq<char>) -> GraphV {
    GraphV { entries: g.entries, block: Some(BlockV { name, kind }) }
}

/// `g` after a block delimiter that supplies only a kind: the open block
/// keeps its name; without one, a block with an empty name opens.
pub open spec fn graph_rekind_block(g: GraphV, kind: Seq<char>) -> GraphV {
    let name = match g.block {
        Some(b) => b.name,
        None => Seq::empty(),
    };
    GraphV { entries: g.entries, block: Some(BlockV { name, kind }) }
}

/// `g` after a bare block delimiter: the open block closes.
pub open spec fn graph_close_block(g: GraphV) -> GraphV {
    GraphV { entries: g.entries, block: None }
}

/// The value of the latest entry written for `(name, symbol)`, if any.
pub open spec fn graph_find(
    entries: Seq<AttributeV>,
    name: Seq<char>,
    symbol: Option<Seq<char>>,
) -> Option<ValueV>
    decreases entries.len(),
{
    if entries.len() == 0 {
        None
    } else if entries.last().name == name && entries.last().symbol == symbol {
        Some(entries.last().value)
    } else {
        graph_find(entries.drop_last(), name, symbol)
    }
}

/// The attribute store written while parsing `runmd`.
pub struct StateGraph {
    /// Attribute writes, oldest first.
    entries: Vec<Attribute>,
    /// The open block, if any.
    block: Option<Block>,
}

impl View for StateGraph {
    type V = GraphV;

    closed spec fn view(&self) -> GraphV {
        GraphV {
            entries: self.entries@.map_values(|a: Attribute| a@),
            block: match &self.block {
                Some(b) => Some(b@),
                None => None,
            },
        }
    }
}

impl StateGraph {
    /// A graph holding nothing, outside any block.
    pub fn new() -> (g: StateGraph)
        ensures
            g@ == empty_graph(),
    {
        let g = StateGraph { entries: Vec::new(), block: None };
        proof {
            assert(g@ =~= empty_graph());
        }
        g
    }

    /// Writes `add {name} {value}`.
    pub fn add(&mut self, name: String, value: Value)
        ensures
            final(self)@ == graph_add(old(self)@, name@, value@),
    {
        let ghost n = name@;
        let ghost v = value@;
        self.entries.push(Attribute { name, symbol: None, value });
        proof {
            assert(self@ =~= graph_add(old(self)@, n, v));
        }
    }

    /// Writes `define {name} {symbol} {value}`.
    pub fn define(&mut self, name: String, symbol: String, value: Value)
        ensures
            final(self)@ == graph_define(old(self)@, name@, symbol@, value@),
    {
        let ghost n = name@;
        let ghost s = symbol@;
        let ghost v = value@;
        self.entries.push(Attribute { name, symbol: Some(symbol), value });
        proof {
            assert(self@ =~= graph_define(old(self)@, n, s, v));
        }
    }

    /// Opens a block with a name and a kind.
    pub fn open_block(&mut self, name: String, kind: String)
        ensures
            final(self)@ == graph_open_block(old(self)@, name@, kind@),
    {
        let ghost n = name@;
        let ghost k = kind@;
        self.block = Some(Block { name, kind });
        proof {
            assert(self@ =~= graph_open_block(old(self)@, n, k));
        }
    }

    /// Applies a kind to the open block, keeping its name; without an open
    /// block, opens one with an empty name.
    pub fn rekind_block(&mut self, kind: String)
        ensures
            final(self)@ == graph_rekind_block(old(self)@, kind@),
    {
        let ghost k = kind@;
        let name = match self.block.take() {
            Some(b) => b.name,
            None => String::new(),
        };
        self.block = Some(Block { name, kind });
        proof {
            assert(self@ =~= graph_rekind_block(old(self)@, k));
        }
    }

    /// Closes the open block.
    pub fn close_block(&mut self)
        ensures
            final(self)@ == graph_close_block(old(self)@),
    {
        self.block = None;
        proof {
            assert(self@ =~= graph_close_block(old(self)@));
        }
    }

    /// The open block, if any.
    pub fn block(&self) -> (r: &Option<Block>)
        ensures
            match r {
                Some(b) => self@.block == Some(b@),
                None => self@.block is None,
            },
    {
        &self.block
    }

    /// The number of attribute writes recorded.
    pub fn len(&self) -> (n: usize)
        ensures
            n == self@.entries.len(),
    {
        self.entries.len()
    }

    /// The attribute write at `i`, oldest first.
    pub fn entry(&self, i: usize) -> (r: Option<&Attribute>)
        ensures
            match r {
                Some(a) => i < self@.entries.len() && a@ == self@.entries[i as int],
                None => i >= self@.entries.len(),
            },
    {
        if i < self.entries.len() {
            proof {
                assert(self.entries@.map_values(|a: Attribute| a@)[i as int]
                    == self.entries@[i as int]@);
            }
            Some(&self.entries[i])
        } else {
            None
        }
    }

    /// The value of the latest entry written for `(name, symbol)`, if any.
    pub fn find(&self, name: &str, symbol: Option<&str>) -> (r: Option<&Value>)
        ensures
            match r {
                Some(v) => graph_find(self@.entries, name@, opt_str_view(symbol)) == Some(v@),
                None => graph_find(self@.entries, name@, opt_str_view(symbol)) is None,
            },
    {
        let ghost key: Option<Seq<char>> = opt_str_view(symbol);
        let mut i = self.entries.len();
        proof {
            assert(self@.entries.take(i as int) =~= self@.entries);
        }
        while i > 0
            invariant
                i <= self.entries@.len(),
                key == opt_str_view(symbol),
                graph_find(self@.entries, name@, key) == graph_find(
                    self@.entries.take(i as int),
                    name@,
                    key,
                ),
            decreases i,
        {
            i = i - 1;
            let a = &self.entries[i];
            let name_matches = str_eq(a.name.as_str(), name);
            let symbol_matches = match &a.symbol {
                Some(x) => {
                    match symbol {
                        Some(y) => {
                            let r = str_eq(x.as_str(), y);
                            proof {
                                assert(a@.symbol == Some(x@));
                                assert(key == Some(y@));
                            }
                            r
                        },
                        None => false,
                    }
                },
                None => {
                    proof {
                        assert(a@.symbol is None);
                    }
                    match symbol {
                        Some(_) => false,
                        None => true,
                    }
                },
            };
            proof {
                assert(self.entries@.map_values(|x: Attribute| x@)[i as int]
                    == self.entries@[i as int]@);
                assert(self@.entries.take(i as int + 1).last() == self.entries@[i as int]@);
                assert(self@.entries.take(i as int + 1).drop_last() =~= self@.entries.take(
                    i as int,
                ));
                assert(a@ == self.entries@[i as int]@);
                assert(name_matches == (self.entries@[i as int]@.name == name@));
                assert(symbol_matches == (self.entries@[i as int]@.symbol == key));
            }
            if name_matches && symbol_matches {
                proof {
                    assert(self.entries@.map_values(|x: Attribute| x@)[i as int]
                        == self.entries@[i as int]@);
                }
                return Some(&self.entries[i].value);
            }
        }
        proof {
            assert(self@.entries.take(0) =~= Seq::<AttributeV>::empty());
        }
        None
    }
}

/// Whether two strings hold the same characters.
pub(crate) fn str_eq(a: &str, b: &str) -> (r: bool)
    ensures
        r == (a@ == b@),
{
    let x = String::from_str(a);
    let y = String::from_str(b);
    x == y
}

} // verus!
