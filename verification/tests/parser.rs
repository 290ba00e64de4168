use cosmic_gemini::parser::{Event, Parser, Tag};

#[test]
fn parse_heading() {
    let mut parser = Parser::new();
    let mut events = Vec::new();
    parser.parse_line("# Hello World", &mut events);
    assert!(matches!(events[0], Event::Start(Tag::Heading(1))));
    assert!(matches!(events[1], Event::Text("Hello World")));
    assert!(matches!(events[2], Event::End));
}

#[test]
fn parse_link() {
    let mut parser = Parser::new();
    let mut events = Vec::new();
    parser.parse_line("=> gemini://example.com Example Site", &mut events);
    match &events[0] {
        Event::Start(Tag::Link(href, label)) => {
            assert_eq!(href, "gemini://example.com");
            assert_eq!(label.as_deref(), Some("Example Site"));
        }
        _ => panic!("Expected link event"),
    }
}

#[test]
fn parse_link_no_label() {
    let mut parser = Parser::new();
    let mut events = Vec::new();
    parser.parse_line("=> gemini://example.com", &mut events);
    match &events[0] {
        Event::Start(Tag::Link(href, label)) => {
            assert_eq!(href, "gemini://example.com");
            assert!(label.is_none());
        }
        _ => panic!("Expected link event"),
    }
}

#[test]
fn parse_preformatted() {
    let mut parser = Parser::new();
    let mut events = Vec::new();

    parser.parse_line("```", &mut events);
    assert!(matches!(events[0], Event::Start(Tag::CodeBlock)));

    events.clear();
    parser.parse_line("some code here", &mut events);
    assert!(matches!(events[0], Event::Text("some code here")));

    events.clear();
    parser.parse_line("```", &mut events);
    assert!(matches!(events[0], Event::End));
}

#[test]
fn parse_list() {
    let mut parser = Parser::new();
    let mut events = Vec::new();

    parser.parse_line("* first item", &mut events);
    assert!(matches!(events[0], Event::Start(Tag::UnorderedList)));
    assert!(matches!(events[1], Event::Start(Tag::Item)));
    assert!(matches!(events[2], Event::Text("first item")));
    assert!(matches!(events[3], Event::End));

    events.clear();
    parser.parse_line("* second item", &mut events);
    assert!(matches!(events[0], Event::Start(Tag::UnorderedList)));
    assert!(matches!(events[1], Event::Start(Tag::Item)));
    assert!(matches!(events[2], Event::Text("second item")));
    assert!(matches!(events[3], Event::End));
}

#[test]
fn parse_blockquote() {
    let mut parser = Parser::new();
    let mut events = Vec::new();
    parser.parse_line(">quoted text", &mut events);
    assert!(matches!(events[0], Event::Start(Tag::BlockQuote)));
    assert!(matches!(events[1], Event::Text("quoted text")));
}

#[test]
fn parse_blank_line() {
    let mut parser = Parser::new();
    let mut events = Vec::new();
    parser.parse_line("", &mut events);
    assert!(matches!(events[0], Event::BlankLine));
}

#[test]
fn parse_paragraph() {
    let mut parser = Parser::new();
    let mut events = Vec::new();
    parser.parse_line("Just some text", &mut events);
    assert!(matches!(events[0], Event::Start(Tag::Paragraph)));
    assert!(matches!(events[1], Event::Text("Just some text")));
    assert!(matches!(events[2], Event::End));
}

#[test]
fn heading_level_counts_every_hash_and_text_is_trimmed() {
    let mut parser = Parser::new();
    let mut events = Vec::new();
    parser.parse_line("### Deep # title  ", &mut events);
    assert!(matches!(events[0], Event::Start(Tag::Heading(4))));
    assert!(matches!(events[1], Event::Text("Deep # title")));
}

#[test]
fn link_with_tabs_and_trailing_space() {
    let mut parser = Parser::new();
    let mut events = Vec::new();
    parser.parse_line("=>\tgemini://a.b/c \t My  label \t", &mut events);
    match &events[0] {
        Event::Start(Tag::Link(href, label)) => {
            assert_eq!(href, "gemini://a.b/c");
            assert_eq!(label.as_deref(), Some("My  label"));
        }
        _ => panic!("Expected link event"),
    }
    assert!(matches!(events[1], Event::End));
}

#[test]
fn bare_arrow_is_a_paragraph() {
    let mut parser = Parser::new();
    let mut events = Vec::new();
    parser.parse_line("=>   ", &mut events);
    assert!(matches!(events[0], Event::Start(Tag::Paragraph)));
    assert!(matches!(events[1], Event::Text("=>")));
}

#[test]
fn blank_line_inside_preformatted_is_text() {
    let mut parser = Parser::new();
    let mut events = Vec::new();
    parser.parse_line("```rust", &mut events);
    parser.parse_line("   ", &mut events);
    assert!(matches!(events[0], Event::Start(Tag::CodeBlock)));
    assert!(matches!(events[1], Event::Text("   ")));
    assert_eq!(events.len(), 2);
}

#[test]
fn quote_keeps_leading_space_after_markers() {
    let mut parser = Parser::new();
    let mut events = Vec::new();
    parser.parse_line(">> nested", &mut events);
    assert!(matches!(events[1], Event::Text(" nested")));
}
