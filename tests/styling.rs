use openjudge_cli::style::{emphasise, Emphasis};
use openjudge_cli::{get_printable_html_text, DocumentNode, GraphicsProtocol, Tag};

#[test]
fn forced_colours_wrap_in_escapes() {
    colored::control::set_override(true);
    assert_eq!(emphasise("x", Emphasis::Bold), "\x1b[1mx\x1b[0m");
    assert_eq!(emphasise("x", Emphasis::Heading1), "\x1b[1;4;37mx\x1b[0m");
    assert_eq!(emphasise("x", Emphasis::Heading2), "\x1b[1;4mx\x1b[0m");
    assert_eq!(emphasise("x", Emphasis::Italic), "\x1b[3mx\x1b[0m");
    assert_eq!(emphasise("x", Emphasis::Highlight), "\x1b[43;30mx\x1b[0m");
    assert_eq!(
        emphasise("a\x1b[0mb", Emphasis::Italic),
        "\x1b[3ma\x1b[0m\x1b[3mb\x1b[0m"
    );
}

#[test]
fn nested_emphasis_is_rearmed() {
    colored::control::set_override(true);
    let nodes = vec![DocumentNode::Element {
        tag: Tag::P,
        src: None,
        children: vec![DocumentNode::Element {
            tag: Tag::B,
            src: None,
            children: vec![
                DocumentNode::Text("a".to_string()),
                DocumentNode::Element {
                    tag: Tag::I,
                    src: None,
                    children: vec![DocumentNode::Text("b".to_string())],
                },
                DocumentNode::Text("c".to_string()),
            ],
        }],
    }];
    let out = get_printable_html_text(&nodes, GraphicsProtocol::Disabled, &vec![]);
    assert_eq!(out, "\n\x1b[1ma\x1b[3mb\x1b[0m\x1b[1mc\x1b[0m\n");
}
