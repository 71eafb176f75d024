use lifec_shell::Runmd;
use lifec_shell::SourceSpan;
use lifec_shell::StateGraph;
use lifec_shell::Value;
use lifec_shell::AttributeGraphEvents;

#[test]
fn test_runmd() {
    let runmd = r#"
``` demo process
add test_val .text test hello world
define test_val test .text test hello world
``` println
add label .text test label
add duration .int2 5, 6
```

``` test
: test .symbol cool_symbol

+ .engine
: .event test
: .event test2
: .exit
```

"#;

    // Test lexer
    let mut lexer = Runmd::lex(runmd).into_iter();
    let token = lexer.next();
    assert_eq!(
        token,
        Some(Runmd::BlockDelimitter(vec![
            SourceSpan::new(1, 5),
            SourceSpan::new(5, 9),
            SourceSpan::new(10, 17)
        ]))
    );
    let token = lexer.next();
    assert_eq!(
        token,
        Some(Runmd::BlockKeyword(vec![
            SourceSpan::new(18, 21),
            SourceSpan::new(21, 31)
        ]))
    );
    let _ = lexer.next();
    let token = lexer.next();
    assert_eq!(
        token,
        Some(Runmd::BlockKeyword(vec![
            SourceSpan::new(54, 60),
            SourceSpan::new(61, 70),
            SourceSpan::new(70, 75)
        ]))
    );
    let token = lexer.next();
    if let Some(Runmd::AttributeValue(_, value_span)) = token.clone() {
        println!("{:?} {}", token, &runmd[value_span.start..value_span.end]);
    }

    // Test graph creation w/ lexer
    let runmd_parser = Runmd::default();
    let tokens = runmd_parser.parse(runmd);
    for (token, span) in tokens {
        if let Some(span) = span {
            println!("{:?} {}", token, &runmd[span.start..span.end]);
        }
    }
}

#[test]
fn block_and_add_scenario() {
    // the opening line names a block and its kind; the add event then
    // writes a text attribute
    let source = "``` demo process\nadd test_val .text test hello world\n";
    let mut graph = StateGraph::new();
    let tokens = Runmd::lex_with_graph(source, &mut graph);

    assert_eq!(
        tokens[0],
        Runmd::BlockDelimitter(vec![
            SourceSpan::new(0, 4),
            SourceSpan::new(4, 8),
            SourceSpan::new(9, 16)
        ])
    );
    assert_eq!(&source[4..8], "demo");
    assert_eq!(&source[9..16], "process");
    assert!(matches!(&tokens[1], Runmd::BlockKeyword(spans) if spans.len() == 2));

    let block = graph.block().clone().expect("block should be open");
    assert_eq!(block.name, "demo");
    assert_eq!(block.kind, "process");

    assert_eq!(
        graph.find("test_val", None),
        Some(&Value::TextBuffer("test hello world".to_string()))
    );
}

#[test]
fn int_pair_scenario() {
    // `.int2 5, 6` after an `add duration` event yields a paired integer
    let source = "add duration .int2 5, 6\n";
    let mut graph = StateGraph::new();
    let _ = Runmd::lex_with_graph(source, &mut graph);
    assert_eq!(graph.find("duration", None), Some(&Value::IntPair(5, 6)));
}

#[test]
fn define_writes_symbol() {
    let source = "define test_val test .text test hello world\n";
    let mut graph = StateGraph::new();
    let _ = Runmd::lex_with_graph(source, &mut graph);
    assert_eq!(
        graph.find("test_val", Some("test")),
        Some(&Value::TextBuffer("test hello world".to_string()))
    );
    assert_eq!(graph.find("test_val", None), None);
}

#[test]
fn unparseable_values_are_soft_failures() {
    // the tokens are still emitted for highlighting, but nothing is
    // written to the graph
    let source = "add flag .bool yes\nadd n .int 99999999999\nadd f .float abc\nadd d .bin !!!\n";
    let mut graph = StateGraph::new();
    let _ = Runmd::lex_with_graph(source, &mut graph);
    assert_eq!(graph.find("flag", None), None);
    assert_eq!(graph.find("n", None), None);
    assert_eq!(graph.find("f", None), None);
    assert_eq!(graph.find("d", None), None);
}

#[test]
fn typed_values_parse() {
    let source = "add t .bool true\nadd i .int -42\nadd r .int3 1, 2, 3\nadd f .float 5.5\nadd fp .float2 1.5, 2e3\nadd fr .float3 1, 2.5, inf\nadd s .symbol cool_symbol\nadd e .empty\nadd b .bin aGVsbG8=\n";
    let mut graph = StateGraph::new();
    let _ = Runmd::lex_with_graph(source, &mut graph);
    assert_eq!(graph.find("t", None), Some(&Value::Bool(true)));
    assert_eq!(graph.find("i", None), Some(&Value::Int(-42)));
    assert_eq!(graph.find("r", None), Some(&Value::IntRange(1, 2, 3)));
    assert_eq!(graph.find("f", None), Some(&Value::Float("5.5".to_string())));
    assert_eq!(
        graph.find("fp", None),
        Some(&Value::FloatPair("1.5".to_string(), "2e3".to_string()))
    );
    assert_eq!(
        graph.find("fr", None),
        Some(&Value::FloatRange(
            "1".to_string(),
            "2.5".to_string(),
            "inf".to_string()
        ))
    );
    assert_eq!(
        graph.find("s", None),
        Some(&Value::Symbol("cool_symbol".to_string()))
    );
    assert_eq!(graph.find("e", None), Some(&Value::Empty));
    // base64 decoding really ran: the input text came back as bytes
    assert_eq!(
        graph.find("b", None),
        Some(&Value::BinaryVector(b"hello".to_vec()))
    );
}

#[test]
fn comma_lists_skip_unparseable_segments() {
    // segments that fail to parse are filtered, the rest pair up
    let source = "add p .int2 x, 5, 6\n";
    let mut graph = StateGraph::new();
    let _ = Runmd::lex_with_graph(source, &mut graph);
    assert_eq!(graph.find("p", None), Some(&Value::IntPair(5, 6)));
}

#[test]
fn bare_delimiter_closes_block() {
    let source = "``` demo process\n```\nadd x .int 1\n";
    let mut graph = StateGraph::new();
    let _ = Runmd::lex_with_graph(source, &mut graph);
    assert!(graph.block().is_none());
    assert_eq!(graph.find("x", None), Some(&Value::Int(1)));
}

#[test]
fn single_element_delimiter_rekinds_block() {
    let source = "``` demo process\n``` println\n";
    let mut graph = StateGraph::new();
    let _ = Runmd::lex_with_graph(source, &mut graph);
    let block = graph.block().clone().expect("block should be open");
    assert_eq!(block.name, "demo");
    assert_eq!(block.kind, "println");
}

#[test]
fn comments_consume_the_line() {
    let source = "# a comment\n- another\n``` md ignored\nadd x .int 7\n";
    let mut graph = StateGraph::new();
    let tokens = Runmd::lex_with_graph(source, &mut graph);
    assert_eq!(tokens[0], Runmd::Comment);
    assert_eq!(tokens[1], Runmd::Comment);
    assert_eq!(tokens[2], Runmd::Comment);
    assert_eq!(graph.find("x", None), Some(&Value::Int(7)));
}

#[test]
fn classify_event_table() {
    assert_eq!(
        lifec_shell::classify_event("add"),
        AttributeGraphEvents::Add
    );
    assert_eq!(
        lifec_shell::classify_event("+"),
        AttributeGraphEvents::Add
    );
    assert_eq!(
        lifec_shell::classify_event("define"),
        AttributeGraphEvents::Define
    );
    assert_eq!(
        lifec_shell::classify_event(":"),
        AttributeGraphEvents::Define
    );
    assert_eq!(
        lifec_shell::classify_event("#"),
        AttributeGraphEvents::Comment
    );
    assert_eq!(
        lifec_shell::classify_event("```"),
        AttributeGraphEvents::BlockDelimitter
    );
    assert_eq!(
        lifec_shell::classify_event("``` md"),
        AttributeGraphEvents::Comment
    );
    assert_eq!(
        lifec_shell::classify_event("?"),
        AttributeGraphEvents::Error
    );
}

#[test]
fn trailing_whitespace_token_covers_the_source() {
    // the parsed stream always ends with one synthetic whitespace token
    // running to the end of the source
    let source = "add x .int 1\nplain text";
    let parser = Runmd::default();
    let tokens = parser.parse(source);
    let (token, span) = tokens.last().expect("at least the trailing token");
    assert!(matches!(token, lifec_shell::Token::Whitespace));
    let span = span.expect("the trailing token is tagged");
    assert_eq!(span.end, source.chars().count());
}

#[test]
fn unrecognized_characters_scan_on() {
    // an unrecognized character yields an error token and scanning
    // resumes at the next character
    let source = "?add x .int 1\n";
    let mut graph = StateGraph::new();
    let tokens = Runmd::lex_with_graph(source, &mut graph);
    assert_eq!(tokens[0], Runmd::Error);
    assert_eq!(graph.find("x", None), Some(&Value::Int(1)));
}

#[test]
fn markers_without_a_line_end_degrade_to_errors() {
    // an event or comment marker with no line end in sight cannot carry
    // a line, so it degrades to an error token
    let tokens = Runmd::lex("add");
    assert_eq!(tokens, vec![Runmd::Error]);
    let tokens = Runmd::lex("#");
    assert_eq!(tokens, vec![Runmd::Error]);
    // a bare delimiter at the end of input still closes the block
    let mut graph = StateGraph::new();
    let tokens = Runmd::lex_with_graph("``` demo process\n```", &mut graph);
    assert!(matches!(&tokens[1], Runmd::BlockDelimitter(spans) if spans.len() == 1));
    assert!(graph.block().is_none());
}

#[test]
fn empty_source_still_gets_the_trailing_token() {
    let parser = Runmd::default();
    let tokens = parser.parse("");
    assert_eq!(tokens.len(), 1);
    let (token, span) = &tokens[0];
    assert!(matches!(token, lifec_shell::Token::Whitespace));
    assert_eq!(span.unwrap().start, 0);
    assert_eq!(span.unwrap().end, 0);
}
