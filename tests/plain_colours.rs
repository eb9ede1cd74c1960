use openjudge_cli::style::{emphasise, Emphasis};
use openjudge_cli::{get_printable_html_text, DocumentNode, GraphicsProtocol, Tag};

#[test]
fn colours_off_keep_text() {
    colored::control::set_override(false);
    assert_eq!(emphasise("plain", Emphasis::Bold), "plain");
    let nodes = vec![DocumentNode::Element {
        tag: Tag::H1,
        src: None,
        children: vec![DocumentNode::Text("Title".to_string())],
    }];
    let out = get_printable_html_text(&nodes, GraphicsProtocol::Disabled, &vec![]);
    assert_eq!(out, "Title\n");
}
