use cosmic_gemini::gemtext::{
    extract_title, is_image_url, normalize_url, parse_gemtext, resolve_url, urlencoding_encode,
};
use cosmic_gemini::tab::Block;

#[test]
fn gemtext_page_becomes_blocks() {
    let body = "# Title\r\nSome text\n=> gemini://example.com Example\n=> rel.gmi\n>quote one\n>quote two\n* item\n>after item\n\n```\ncode line\n```\n";
    let blocks = parse_gemtext(body, "gemini://host.net/dir/page.gmi");
    assert_eq!(blocks.len(), 9);
    assert!(matches!(&blocks[0], Block::Heading { level: 1, text } if text == "Title"));
    assert!(matches!(&blocks[1], Block::Paragraph(t) if t == "Some text"));
    assert!(matches!(&blocks[2], Block::Link { href, label } if href == "gemini://example.com" && label == "Example"));
    assert!(matches!(&blocks[3], Block::Link { href, label } if href == "gemini://host.net/dir/rel.gmi" && label == "gemini://host.net/dir/rel.gmi"));
    assert!(matches!(&blocks[4], Block::Quote(t) if t == "quote one\nquote two"));
    // a quote after a list item is a quote of its own; the item stays
    assert!(matches!(&blocks[5], Block::ListItem(t) if t == "item"));
    assert!(matches!(&blocks[6], Block::Quote(t) if t == "after item"));
    assert!(matches!(&blocks[7], Block::Blank));
    assert!(matches!(&blocks[8], Block::PreBlock { lines } if lines == &vec!["code line".to_string()]));
}

#[test]
fn quote_after_paragraph_keeps_the_paragraph() {
    let blocks = parse_gemtext("Intro\n>quoted", "");
    assert_eq!(blocks.len(), 2);
    assert!(matches!(&blocks[0], Block::Paragraph(t) if t == "Intro"));
    assert!(matches!(&blocks[1], Block::Quote(t) if t == "quoted"));
}

#[test]
fn image_links_become_images_and_open_blocks_close() {
    let blocks = parse_gemtext("=> pic.PNG?x=1 A picture\n```\nunclosed", "gemini://h/");
    assert_eq!(blocks.len(), 2);
    assert!(matches!(&blocks[0], Block::Image { alt, url, data: None } if alt == "A picture" && url == "gemini://h/pic.PNG?x=1"));
    assert!(matches!(&blocks[1], Block::PreBlock { lines } if lines == &vec!["unclosed".to_string()]));
    assert!(parse_gemtext("", "gemini://h/").is_empty());
}

#[test]
fn urls_are_resolved() {
    assert_eq!(resolve_url("gemini://a.b/c/d.gmi", "e.gmi"), "gemini://a.b/c/e.gmi");
    assert_eq!(resolve_url("gemini://a.b/c/d.gmi", "/x"), "gemini://a.b/x");
    assert_eq!(resolve_url("gemini://a.b/", "gemini://other/"), "gemini://other/");
    assert_eq!(resolve_url("not a url", "rel"), "rel");
}

#[test]
fn image_urls_by_extension() {
    assert!(is_image_url("gemini://h/a.png"));
    assert!(is_image_url("gemini://h/a.JPEG#frag"));
    assert!(is_image_url("https://h/x.webp?q=1"));
    assert!(!is_image_url("gemini://h/a.png.txt"));
    assert!(!is_image_url("gemini://h/?file=a.gif"));
}

#[test]
fn url_bar_input_is_normalized() {
    assert_eq!(normalize_url("  gemini://x.org/  "), "gemini://x.org/");
    assert_eq!(normalize_url("example.com"), "gemini://example.com");
    assert_eq!(normalize_url("hello world"), "gemini://tlgs.one/search?hello%20world");
    assert_eq!(normalize_url("a.b c"), "gemini://tlgs.one/search?a.b%20c");
}

#[test]
fn percent_encoding() {
    assert_eq!(urlencoding_encode("Az09-_.~"), "Az09-_.~");
    assert_eq!(urlencoding_encode("a b&é"), "a%20b%26%C3%A9");
}

#[test]
fn title_is_first_nonempty_top_heading() {
    let blocks = vec![
        Block::Heading { level: 2, text: "Sub".to_string() },
        Block::Heading { level: 1, text: String::new() },
        Block::Heading { level: 1, text: "Main".to_string() },
        Block::Heading { level: 1, text: "Other".to_string() },
    ];
    assert_eq!(extract_title(&blocks), Some("Main".to_string()));
    assert_eq!(extract_title(&blocks[..2]), None);
}

#[test]
fn normalizing_twice_changes_nothing() {
    for input in ["  example.org/page ", "two words", "gemini://a.b/c", "", "x"] {
        let once = normalize_url(input);
        assert!(once.contains("://"));
        assert_eq!(normalize_url(&once), once);
    }
}
