use openjudge_cli::render::render_children;
use openjudge_cli::{
    get_printable_html_text, html_to_terminal_output_neo, image_sources, DocumentNode,
    GraphicsProtocol, RenderedImage, Tag,
};

fn text(s: &str) -> DocumentNode {
    DocumentNode::Text(s.to_string())
}

fn element(tag: Tag, children: Vec<DocumentNode>) -> DocumentNode {
    DocumentNode::Element { tag, src: None, children }
}

fn image(src: Option<&str>) -> DocumentNode {
    DocumentNode::Element { tag: Tag::Img, src: src.map(|s| s.to_string()), children: vec![] }
}

fn strip_ansi(s: &str) -> String {
    let mut out = String::new();
    let mut chars = s.chars().peekable();
    while let Some(c) = chars.next() {
        if c == '\u{1b}' && chars.peek() == Some(&'[') {
            chars.next();
            while let Some(d) = chars.next() {
                if d == 'm' {
                    break;
                }
            }
        } else {
            out.push(c);
        }
    }
    out
}

#[test]
fn paragraph_with_bold_word() {
    let nodes = vec![element(
        Tag::P,
        vec![text("Hello "), element(Tag::B, vec![text("World")])],
    )];
    let out = get_printable_html_text(&nodes, GraphicsProtocol::Disabled, &vec![]);
    assert_eq!(strip_ansi(&out), "\nHello World\n");
    assert!(out.starts_with("\nHello "));
    assert!(out.ends_with("\n"));
}

#[test]
fn preformatted_interior_is_verbatim() {
    let nodes = vec![element(Tag::Pre, vec![text("  a\n  b")])];
    let out = get_printable_html_text(&nodes, GraphicsProtocol::Disabled, &vec![]);
    assert_eq!(out, "  a\n  b");
}

#[test]
fn preformatted_reaches_nested_text() {
    let nodes = vec![element(
        Tag::Pre,
        vec![text(" x  "), element(Tag::Other, vec![element(Tag::Other, vec![text("\t y \n")])])],
    )];
    let out = get_printable_html_text(&nodes, GraphicsProtocol::Disabled, &vec![]);
    assert_eq!(out, " x  \t y \n");
}

#[test]
fn whitespace_collapses_outside_pre() {
    let nodes = vec![text("  a \n\n b  "), element(Tag::Pre, vec![text("c  d")]), text("e   f")];
    let out = get_printable_html_text(&nodes, GraphicsProtocol::Disabled, &vec![]);
    assert_eq!(out, " a b c  de f");
}

#[test]
fn disabled_image_is_placeholder_without_fetch() {
    let nodes = vec![image(Some("http://x/y.png"))];
    assert!(image_sources(&nodes, GraphicsProtocol::Disabled).is_empty());
    let out = get_printable_html_text(&nodes, GraphicsProtocol::Disabled, &vec![]);
    assert_eq!(out, "[Image src http://x/y.png]\n");
}

#[test]
fn image_source_is_trimmed() {
    let nodes = vec![image(Some("  http://x/y.png \n"))];
    let out = get_printable_html_text(&nodes, GraphicsProtocol::Disabled, &vec![]);
    assert_eq!(out, "[Image src http://x/y.png]\n");
}

#[test]
fn missing_src_renders_nothing() {
    for p in [
        GraphicsProtocol::Disabled,
        GraphicsProtocol::Kitty,
        GraphicsProtocol::ITerm,
        GraphicsProtocol::Sixel,
    ] {
        let node = image(None);
        assert_eq!(html_to_terminal_output_neo(&node, p, false, &vec![]), "");
        let blank = image(Some("   "));
        assert_eq!(html_to_terminal_output_neo(&blank, p, false, &vec![]), "");
    }
}

#[test]
fn failed_fetch_becomes_placeholder() {
    let nodes = vec![element(Tag::Div, vec![text("before "), image(Some("http://bad"))])];
    let sources = image_sources(&nodes, GraphicsProtocol::Kitty);
    assert_eq!(sources, vec!["http://bad".to_string()]);
    let text_for_bad = openjudge_cli::get_image(
        "http://bad",
        GraphicsProtocol::Kitty,
        openjudge_cli::Fetched::SendFailed,
    );
    let images = vec![RenderedImage { src: sources[0].clone(), text: text_for_bad }];
    let out = get_printable_html_text(&nodes, GraphicsProtocol::Kitty, &images);
    assert_eq!(out, "before [Image src http://bad fetch failed]\n");
    assert!(out.contains("http://bad"));
}

#[test]
fn line_break_and_ignorable() {
    let nodes = vec![
        text("a"),
        element(Tag::Br, vec![text("ignored")]),
        DocumentNode::Ignorable,
        text("b"),
    ];
    let out = get_printable_html_text(&nodes, GraphicsProtocol::Disabled, &vec![]);
    assert_eq!(out, "a\nb");
}

#[test]
fn block_tags_add_newlines() {
    let nodes = vec![
        element(Tag::Div, vec![text("d")]),
        element(Tag::H3, vec![text("h")]),
        element(Tag::Other, vec![text("o")]),
    ];
    let out = get_printable_html_text(&nodes, GraphicsProtocol::Disabled, &vec![]);
    assert_eq!(strip_ansi(&out), "d\nh\no");
}

#[test]
fn sibling_order_is_kept() {
    let forward = vec![text("one "), element(Tag::I, vec![text("two ")]), text("three")];
    let backward = vec![text("three"), element(Tag::I, vec![text("two ")]), text("one ")];
    let a = render_children(&forward, GraphicsProtocol::Disabled, false, &vec![]);
    let b = render_children(&backward, GraphicsProtocol::Disabled, false, &vec![]);
    assert_eq!(strip_ansi(&a), "one two three");
    assert_eq!(strip_ansi(&b), "threetwo one ");
}

#[test]
fn sources_in_document_order() {
    let nodes = vec![
        image(Some("a.png")),
        element(Tag::P, vec![image(Some(" b.png ")), image(None)]),
        element(Tag::Br, vec![image(Some("hidden.png"))]),
        image(Some("c.png")),
    ];
    let s = image_sources(&nodes, GraphicsProtocol::ITerm);
    assert_eq!(s, vec!["a.png".to_string(), "b.png".to_string(), "c.png".to_string()]);
}

#[test]
fn tag_names_map_to_tags() {
    assert_eq!(Tag::from_name("strong"), Tag::Strong);
    assert_eq!(Tag::from_name("pre"), Tag::Pre);
    assert_eq!(Tag::from_name("img"), Tag::Img);
    assert_eq!(Tag::from_name("span"), Tag::Other);
}
