use lifec_shell::Rgba;
use lifec_shell::Runmd;
use lifec_shell::StateGraph;
use lifec_shell::Theme;
use lifec_shell::ThemeColor;
use lifec_shell::Token;
use lifec_shell::Value;

#[test]
fn test_theme() {
    let source = "\ntest      abc \n{\n// test\n. custom\n}\n";
    let _ = source;
    let mut theme = Theme::new();
    theme.set_color(
        Token::Bracket,
        ThemeColor::Fixed(Rgba::new(100000, 0, 0, 100000)),
    );
    theme.set_color(
        Token::Custom("custom".to_string()),
        ThemeColor::Fixed(Rgba::new(100000, 100000, 0, 100000)),
    );
}

#[test]
fn set_color_overrides_and_get_color_reads_back() {
    let mut theme = Theme::new();
    let red = ThemeColor::Fixed(Rgba::new(100000, 0, 0, 100000));
    let blue = ThemeColor::Fixed(Rgba::new(0, 0, 100000, 100000));
    theme.set_color(Token::Bracket, red);
    theme.set_color(Token::Bracket, blue.clone());
    assert_eq!(theme.get_color(Token::Bracket), Some(&blue));
    assert_eq!(theme.get_color(Token::Modifier), None);
}

#[test]
fn colors_load_from_the_graph() {
    // entries under recognized names recolor the fixed token kinds;
    // palette names resolve, unknown names fall back to green
    let source = "add bracket .text purple\nadd operator .text yellow\nadd identifier .text red\nadd literal .text green\nadd comment .text unknown_color\nadd accent .float3 0.1, 0.2, 0.3\n";
    let mut graph = StateGraph::new();
    let _ = Runmd::lex_with_graph(source, &mut graph);
    assert_eq!(
        graph.find("accent", None),
        Some(&Value::FloatRange(
            "0.1".to_string(),
            "0.2".to_string(),
            "0.3".to_string()
        ))
    );
    let theme = Theme::new_with(graph);
    assert_eq!(
        theme.get_color(Token::Bracket),
        Some(&ThemeColor::Fixed(Rgba::new(56471, 18782, 72306, 100000)))
    );
    assert_eq!(
        theme.get_color(Token::Operator),
        Some(&ThemeColor::Fixed(Rgba::new(78354, 52712, 19807, 100000)))
    );
    assert_eq!(
        theme.get_color(Token::Identifier),
        Some(&ThemeColor::Fixed(Rgba::new(74540, 14996, 17789, 100000)))
    );
    assert_eq!(
        theme.get_color(Token::Literal),
        Some(&ThemeColor::Fixed(Rgba::new(31399, 54572, 19120, 100000)))
    );
    // unknown color names fall back to green
    assert_eq!(
        theme.get_color(Token::Comment),
        Some(&ThemeColor::Fixed(Rgba::new(31399, 54572, 19120, 100000)))
    );
    // channel triples are kept as written
    assert_eq!(
        theme.get_color(Token::Custom("accent".to_string())),
        Some(&ThemeColor::Channels(
            "0.1".to_string(),
            "0.2".to_string(),
            "0.3".to_string()
        ))
    );
    // the default palette entries are present
    assert_eq!(
        theme.get_color(Token::Custom("background".to_string())),
        Some(&ThemeColor::Fixed(Rgba::new(2122, 2519, 3434, 100000)))
    );
}

#[test]
fn render_tiles_the_whole_source() {
    // every styled run starts where the previous one ended, and the last
    // one ends at the end of the source: nothing typed is lost
    let source = "``` demo process\nadd test_val .text test hello world\nplain trailing";
    let theme = Theme::new();
    let grammer = Runmd::default();
    let runs = theme.render(&grammer, source);
    assert!(!runs.is_empty());
    let mut cursor = 0usize;
    for run in &runs {
        assert_eq!(run.span.start, cursor);
        assert!(run.span.start <= run.span.end);
        cursor = run.span.end;
    }
    assert_eq!(cursor, source.chars().count());
}

#[test]
fn render_colors_tagged_tokens() {
    let source = "``` demo process\n";
    let mut theme = Theme::new();
    let bracket = ThemeColor::Fixed(Rgba::new(100000, 0, 0, 100000));
    theme.set_color(Token::Bracket, bracket.clone());
    let grammer = Runmd::default();
    let runs = theme.render(&grammer, source);
    // the delimiter's own span carries the bracket color
    assert!(runs.iter().any(|r| r.span.start == 0 && r.span.end == 4 && r.color == bracket));
}
