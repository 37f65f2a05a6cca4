use loupe::ui::markdown::{markdown_tokens, parse_markdown, render_markdown_block, MdBlock, MdToken};
use loupe::ui::style::{Color, Modifiers, Style};
use loupe::ui::wrap::{soft_wrap_plain, split_for_highlight, wrap_chunks, MarkdownRenderOptions};

fn opts() -> MarkdownRenderOptions {
    MarkdownRenderOptions {
        label: "ASSIST   ".to_string(),
        label_style: Style::new().fg(Color::Cyan),
        content_cols: 40,
        base_style: Style::new(),
        search_query: String::new(),
        search_active: false,
    }
}

fn texts(text: &str, o: &MarkdownRenderOptions) -> Vec<String> {
    render_markdown_block(text, o).iter().map(|l| l.to_text()).collect()
}

#[test]
fn renders_headings_and_paragraphs() {
    let rendered = texts("# Overview\n\nHello `world`", &opts());
    assert!(rendered.iter().any(|l| l.contains("Overview")));
    assert!(rendered.iter().any(|l| l.contains("Hello world")));
}

#[test]
fn renders_bullet_lists() {
    let rendered = texts("- one\n- two", &opts());
    assert!(rendered.iter().any(|l| l.contains("• one")));
    assert!(rendered.iter().any(|l| l.contains("• two")));
}

#[test]
fn renders_code_fences() {
    let rendered = texts("```rust\nfn main() {}\n```", &opts());
    assert!(rendered.iter().any(|l| l.contains("rust")));
    assert!(rendered.iter().any(|l| l.contains("fn main() {}")));
}

#[test]
fn paragraph_lines_are_labelled_then_indented() {
    let rendered = texts("Hello", &opts());
    assert_eq!(rendered, vec!["ASSIST   Hello".to_string(), String::new()]);
}

#[test]
fn empty_text_shows_the_label() {
    let rendered = texts("", &opts());
    assert_eq!(rendered, vec!["ASSIST   ".to_string(), String::new()]);
}

#[test]
fn ordered_lists_number_from_their_start() {
    let rendered = texts("3. a\n4. b", &opts());
    assert_eq!(rendered[0], "ASSIST   3. a");
    assert_eq!(rendered[1], "         4. b");
}

#[test]
fn quotes_get_a_bar() {
    let rendered = texts("> quoted", &opts());
    assert_eq!(rendered[0], "ASSIST   │ quoted\n");
}

#[test]
fn code_fence_without_language_says_text() {
    let rendered = texts("```\nx\n```", &opts());
    assert_eq!(rendered[0], "ASSIST   ┌─ text ─");
    assert_eq!(rendered[1], "         │ x");
    assert_eq!(rendered[2], "         └──────────");
}

#[test]
fn thematic_break_spans_the_width() {
    let mut o = opts();
    o.content_cols = 5;
    let rendered = texts("---", &o);
    assert_eq!(rendered[0], "ASSIST   ─────");
}

#[test]
fn heading_levels_and_styles() {
    let blocks = parse_markdown("## Two", Style::new());
    assert_eq!(blocks.len(), 1);
    match &blocks[0] {
        MdBlock::Heading { level, content } => {
            assert_eq!(*level, 2);
            assert_eq!(content[0].text, "Two");
        }
        _ => panic!("not a heading"),
    }
}

#[test]
fn emphasis_is_italic_and_strong_is_bold() {
    let blocks = parse_markdown("*a* **b**", Style::new());
    match &blocks[0] {
        MdBlock::Paragraph(chunks) => {
            assert!(chunks[0].style.add.italic);
            assert!(chunks[2].style.add.bold);
            assert!(!chunks[1].style.add.bold);
        }
        _ => panic!("not a paragraph"),
    }
}

#[test]
fn soft_wrap_cuts_into_pieces() {
    assert_eq!(soft_wrap_plain("abcdef", 4), vec!["abcd".to_string(), "ef".to_string()]);
    assert_eq!(soft_wrap_plain("", 3), vec![String::new()]);
    assert_eq!(soft_wrap_plain("abc", 0), vec!["abc".to_string()]);
    assert_eq!(soft_wrap_plain("héllo", 2), vec!["hé".to_string(), "ll".to_string(), "o".to_string()]);
}

#[test]
fn search_matches_are_marked_case_aside() {
    let spans = split_for_highlight("Hello World", "world", Style::new());
    assert_eq!(spans.len(), 2);
    assert_eq!(spans[0].text, "Hello ");
    assert_eq!(spans[0].style, Style::new());
    assert_eq!(spans[1].text, "World");
    assert_eq!(spans[1].style, Style::new().fg(Color::Black).bg(Color::Yellow).add_modifier(Modifiers::bold()));
}

#[test]
fn search_without_match_keeps_the_text() {
    let spans = split_for_highlight("abc", "zz", Style::new());
    assert_eq!(spans.len(), 1);
    assert_eq!(spans[0].text, "abc");
}

#[test]
fn wrapping_breaks_long_text() {
    let blocks = parse_markdown("abcdefgh", Style::new());
    let mut o = opts();
    o.content_cols = 3;
    match &blocks[0] {
        MdBlock::Paragraph(chunks) => {
            let lines = wrap_chunks(chunks, 3, "", &o);
            let t: Vec<String> = lines.iter().map(|l| l.to_text()).collect();
            assert_eq!(t, vec!["abc".to_string(), "def".to_string(), "gh".to_string()]);
        }
        _ => panic!("not a paragraph"),
    }
}

#[test]
fn marked_search_in_rendered_markdown() {
    let mut o = opts();
    o.search_query = "lo".to_string();
    o.search_active = true;
    let lines = render_markdown_block("hello", &o);
    assert_eq!(lines[0].spans[1].text, "hel");
    assert_eq!(lines[0].spans[2].text, "lo");
    assert_eq!(lines[0].spans[2].style.bg, Some(Color::Yellow));
}

#[test]
fn markdown_tokens_read_each_event() {
    let toks = markdown_tokens("# Hi `x`");
    assert_eq!(toks.len(), 4);
    assert!(matches!(toks[0], MdToken::StartHeading(1)));
    assert!(matches!(&toks[1], MdToken::Text(t) if t == "Hi "));
    assert!(matches!(&toks[2], MdToken::Code(c) if c == "x"));
    assert!(matches!(toks[3], MdToken::EndHeading));
    assert_eq!(markdown_tokens("").len(), 0);
}

#[test]
fn fence_language_is_trimmed() {
    let blocks = parse_markdown("```  rust\u{a0}\nfn x() {}\n```\n\n```   \nplain\n```", Style::new());
    assert_eq!(blocks.len(), 2);
    assert!(matches!(&blocks[0], MdBlock::CodeFence { language: Some(l), .. } if l == "rust"));
    assert!(matches!(&blocks[1], MdBlock::CodeFence { language: None, .. }));
}
