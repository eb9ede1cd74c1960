//! The document tree and its walk into terminal text.

use vstd::prelude::*;
use vstd::string::*;

use crate::inline_image::{disabled_placeholder, disabled_text};
use crate::normalize::{collapse_ws, shrink_whitespace};
use crate::protocol::GraphicsProtocol;
use crate::style::{emphasise, emphasised, Emphasis};
use crate::text::{concat_all, str_eq, trim, trimmed};

verus! {

/// The tags that the renderer tells apart; every other tag is `Other`.
#[derive(Clone, Copy, Debug, PartialEq, Eq, Structural)]
pub enum Tag {
    B,
    Strong,
    H1,
    H2,
    H3,
    H4,
    H5,
    H6,
    Div,
    P,
    I,
    Em,
    Mark,
    Img,
    Br,
    Pre,
    Other,
}

/// A node of a parsed markup fragment.
pub enum DocumentNode {
    /// Character data.
    Text(String),
    /// An element with its `src` attribute, if any, and its children in
    /// document order.
    Element { tag: Tag, src: Option<String>, children: Vec<DocumentNode> },
    /// A comment, doctype or processing instruction.
    Ignorable,
}

/// The text already made for the image whose trimmed source is `src`.
pub struct RenderedImage {
    pub src: String,
    pub text: String,
}

/// The tag for an element name, in lowercase as the parser gives it.
pub open spec fn tag_named(name: Seq<char>) -> Tag {
    if name == "b"@ { Tag::B }
    else if name == "strong"@ { Tag::Strong }
    else if name == "h1"@ { Tag::H1 }
    else if name == "h2"@ { Tag::H2 }
    else if name == "h3"@ { Tag::H3 }
    else if name == "h4"@ { Tag::H4 }
    else if name == "h5"@ { Tag::H5 }
    else if name == "h6"@ { Tag::H6 }
    else if name == "div"@ { Tag::Div }
    else if name == "p"@ { Tag::P }
    else if name == "i"@ { Tag::I }
    else if name == "em"@ { Tag::Em }
    else if name == "mark"@ { Tag::Mark }
    else if name == "img"@ { Tag::Img }
    else if name == "br"@ { Tag::Br }
    else if name == "pre"@ { Tag::Pre }
    else { Tag::Other }
}

impl Tag {
    /// The tag for an element name.
    pub fn from_name(name: &str) -> (r: Tag)
        ensures
            r == tag_named(name@),
    {
        if str_eq(name, "b") { Tag::B }
        else if str_eq(name, "strong") { Tag::Strong }
        else if str_eq(name, "h1") { Tag::H1 }
        else if str_eq(name, "h2") { Tag::H2 }
        else if str_eq(name, "h3") { Tag::H3 }
        else if str_eq(name, "h4") { Tag::H4 }
        else if str_eq(name, "h5") { Tag::H5 }
        else if str_eq(name, "h6") { Tag::H6 }
        else if str_eq(name, "div") { Tag::Div }
        else if str_eq(name, "p") { Tag::P }
        else if str_eq(name, "i") { Tag::I }
        else if str_eq(name, "em") { Tag::Em }
        else if str_eq(name, "mark") { Tag::Mark }
        else if str_eq(name, "img") { Tag::Img }
        else if str_eq(name, "br") { Tag::Br }
        else if str_eq(name, "pre") { Tag::Pre }
        else { Tag::Other }
    }
}

/// The emphasis of a tag, if it has one.
pub open spec fn emphasis_of(tag: Tag) -> Option<Emphasis> {
    match tag {
        Tag::B | Tag::Strong | Tag::H3 | Tag::H4 | Tag::H5 | Tag::H6 => Some(Emphasis::Bold),
        Tag::H1 => Some(Emphasis::Heading1),
        Tag::H2 => Some(Emphasis::Heading2),
        Tag::I | Tag::Em => Some(Emphasis::Italic),
        Tag::Mark => Some(Emphasis::Highlight),
        _ => None,
    }
}

/// What a tag writes before its children.
pub open spec fn lead_of(tag: Tag) -> Seq<char> {
    if tag == Tag::P { "\n"@ } else { Seq::empty() }
}

/// What a tag writes after its children.
pub open spec fn tail_of(tag: Tag) -> Seq<char> {
    match tag {
        Tag::H1 | Tag::H2 | Tag::H3 | Tag::H4 | Tag::H5 | Tag::H6 | Tag::Div | Tag::P => "\n"@,
        _ => Seq::empty(),
    }
}

/// `r` is what the style rule of `tag` makes of the children's text
/// `inner`: the emphasis (if any) applied to it, between the tag's lead and
/// tail.
pub open spec fn styled_by(tag: Tag, inner: Seq<char>, r: Seq<char>) -> bool {
    let lead = lead_of(tag);
    let tail = tail_of(tag);
    &&& r.len() >= lead.len() + tail.len()
    &&& r.take(lead.len() as int) == lead
    &&& r.skip(r.len() - tail.len()) == tail
    &&& match emphasis_of(tag) {
        Some(e) => emphasised(r.subrange(lead.len() as int, r.len() - tail.len()), inner, e),
        None => r.subrange(lead.len() as int, r.len() - tail.len()) == inner,
    }
}

/// The text supplied for the image with source `src`: the first entry
/// with that source, or nothing.
pub open spec fn supplied_image(table: Seq<RenderedImage>, src: Seq<char>) -> Seq<char>
    decreases table.len(),
{
    if table.len() == 0 {
        Seq::empty()
    } else if table[0].src@ == src {
        table[0].text@
    } else {
        supplied_image(table.drop_first(), src)
    }
}

/// The text for an image element: nothing without a source (or with a
/// blank one), the placeholder when images are disabled, else the text
/// supplied for its trimmed source.
pub open spec fn image_element_text(
    src: Option<String>,
    protocol: GraphicsProtocol,
    table: Seq<RenderedImage>,
) -> Seq<char> {
    match src {
        None => Seq::empty(),
        Some(s) => {
            let t = trimmed(s@);
            if t.len() == 0 {
                Seq::empty()
            } else if protocol == GraphicsProtocol::Disabled {
                disabled_placeholder(t)
            } else {
                supplied_image(table, t)
            }
        },
    }
}

/// `r` is a rendering of node `n` with whitespace kept when `pre` holds.
pub open spec fn rendered(
    n: DocumentNode,
    pre: bool,
    protocol: GraphicsProtocol,
    table: Seq<RenderedImage>,
    r: Seq<char>,
) -> bool
    decreases n,
{
    match n {
        DocumentNode::Text(t) => r == (if pre { t@ } else { collapse_ws(t@) }),
        DocumentNode::Ignorable => r.len() == 0,
        DocumentNode::Element { tag, src, children } => {
            if tag == Tag::Img {
                r == image_element_text(src, protocol, table)
            } else if tag == Tag::Br {
                r == "\n"@
            } else {
                exists|inner: Seq<char>|
                    children_rendered(children@, pre || tag == Tag::Pre, protocol, table, inner)
                        && styled_by(tag, inner, r)
            }
        },
    }
}

/// `r` is the renderings of `nodes`, concatenated in document order.
pub open spec fn children_rendered(
    nodes: Seq<DocumentNode>,
    pre: bool,
    protocol: GraphicsProtocol,
    table: Seq<RenderedImage>,
    r: Seq<char>,
) -> bool
    decreases nodes,
{
    if nodes.len() == 0 {
        r.len() == 0
    } else {
        exists|k: int|
            0 <= k <= r.len() && children_rendered(nodes.drop_last(), pre, protocol, table, r.take(k))
                && rendered(nodes.last(), pre, protocol, table, r.skip(k))
    }
}

fn supplied_image_text(table: &Vec<RenderedImage>, src: &str) -> (r: String)
    ensures
        r@ == supplied_image(table@, src@),
{
    let mut i: usize = 0;
    assert(table@.skip(0) =~= table@);
    while i < table.len()
        invariant
            i <= table.len(),
            supplied_image(table@, src@) == supplied_image(table@.skip(i as int), src@),
        decreases table.len() - i,
    {
        let ghost rest = table@.skip(i as int);
        if str_eq(table[i].src.as_str(), src) {
            return table[i].text.clone();
        }
        assert(rest.drop_first() =~= table@.skip(i + 1));
        i = i + 1;
    }
    String::new()
}

fn image_element(src: &Option<String>, protocol: GraphicsProtocol, table: &Vec<RenderedImage>) -> (r:
    String)
    ensures
        r@ == image_element_text(*src, protocol, table@),
{
    match src {
        None => String::new(),
        Some(s) => {
            let t = trim(s.as_str());
            if t.as_str().unicode_len() == 0 {
                String::new()
            } else if protocol == GraphicsProtocol::Disabled {
                disabled_text(t.as_str())
            } else {
                supplied_image_text(table, t.as_str())
            }
        },
    }
}

fn finish(tag: Tag, inner: String) -> (r: String)
    requires
        tag != Tag::Img && tag != Tag::Br,
    ensures
        styled_by(tag, inner@, r@),
{
    let styled = match tag {
        Tag::B | Tag::Strong | Tag::H3 | Tag::H4 | Tag::H5 | Tag::H6 => emphasise(
            inner.as_str(),
            Emphasis::Bold,
        ),
        Tag::H1 => emphasise(inner.as_str(), Emphasis::Heading1),
        Tag::H2 => emphasise(inner.as_str(), Emphasis::Heading2),
        Tag::I | Tag::Em => emphasise(inner.as_str(), Emphasis::Italic),
        Tag::Mark => emphasise(inner.as_str(), Emphasis::Highlight),
        _ => inner,
    };
    let ghost mid = styled@;
    let mut out = if tag == Tag::P {
        String::from_str("\n")
    } else {
        String::new()
    };
    out.append(styled.as_str());
    match tag {
        Tag::H1 | Tag::H2 | Tag::H3 | Tag::H4 | Tag::H5 | Tag::H6 | Tag::Div | Tag::P => {
            out.append("\n");
        },
        _ => {},
    }
    proof {
        let lead = lead_of(tag);
        let tail = tail_of(tag);
        assert(out@ =~= lead + mid + tail);
        assert(out@.take(lead.len() as int) =~= lead);
        assert(out@.skip(out@.len() - tail.len()) =~= tail);
        assert(out@.subrange(lead.len() as int, out@.len() - tail.len()) =~= mid);
    }
    out
}

/// Renders one node: text collapsed unless `preserve_whitespace`, nothing
/// for ignorable nodes, images and line breaks by their own rules, and any
/// other element as its children in order (keeping whitespace from a `pre`
/// element down) under its tag's style rule. `images` holds the texts made
/// for the fragment's images, by trimmed source.
pub fn html_to_terminal_output_neo(
    node: &DocumentNode,
    protocol: GraphicsProtocol,
    preserve_whitespace: bool,
    images: &Vec<RenderedImage>,
) -> (r: String)
    ensures
        rendered(*node, preserve_whitespace, protocol, images@, r@),
    decreases node,
{
    match node {
        DocumentNode::Text(t) => {
            if preserve_whitespace {
                t.clone()
            } else {
                shrink_whitespace(t.as_str())
            }
        },
        DocumentNode::Ignorable => String::new(),
        DocumentNode::Element { tag, src, children } => {
            if *tag == Tag::Img {
                image_element(src, protocol, images)
            } else if *tag == Tag::Br {
                String::from_str("\n")
            } else {
                let pre = preserve_whitespace || *tag == Tag::Pre;
                let inner = render_children(children, protocol, pre, images);
                finish(*tag, inner)
            }
        },
    }
}

/// Renders a sequence of sibling nodes and concatenates the results in
/// document order.
pub fn render_children(
    nodes: &Vec<DocumentNode>,
    protocol: GraphicsProtocol,
    preserve_whitespace: bool,
    images: &Vec<RenderedImage>,
) -> (r: String)
    ensures
        children_rendered(nodes@, preserve_whitespace, protocol, images@, r@),
    decreases nodes,
{
    let mut out = String::new();
    let mut i: usize = 0;
    while i < nodes.len()
        invariant
            i <= nodes.len(),
            children_rendered(nodes@.take(i as int), preserve_whitespace, protocol, images@, out@),
        decreases nodes.len() - i,
    {
        let piece = html_to_terminal_output_neo(&nodes[i], protocol, preserve_whitespace, images);
        let ghost before = out@;
        out.append(piece.as_str());
        proof {
            let taken = nodes@.take(i + 1);
            assert(taken.drop_last() =~= nodes@.take(i as int));
            assert(taken.last() == nodes@[i as int]);
            let k = before.len() as int;
            assert(out@.take(k) =~= before);
            assert(out@.skip(k) =~= piece@);
        }
        i = i + 1;
    }
    assert(nodes@.take(nodes.len() as int) =~= nodes@);
    out
}

/// Renders a parsed fragment: its top-level nodes in document order, with
/// whitespace collapsed outside `pre` elements.
pub fn get_printable_html_text(
    nodes: &Vec<DocumentNode>,
    protocol: GraphicsProtocol,
    images: &Vec<RenderedImage>,
) -> (r: String)
    ensures
        children_rendered(nodes@, false, protocol, images@, r@),
{
    render_children(nodes, protocol, false, images)
}

/// The trimmed, non-blank image sources under a node, in document order,
/// as the walk meets them.
pub open spec fn sources_of(n: DocumentNode) -> Seq<Seq<char>>
    decreases n,
{
    match n {
        DocumentNode::Element { tag, src, children } => {
            if tag == Tag::Img {
                match src {
                    Some(s) => if trimmed(s@).len() > 0 {
                        seq![trimmed(s@)]
                    } else {
                        Seq::empty()
                    },
                    None => Seq::empty(),
                }
            } else if tag == Tag::Br {
                Seq::empty()
            } else {
                sources_in(children@)
            }
        },
        _ => Seq::empty(),
    }
}

/// The image sources under a sequence of nodes, in document order.
pub open spec fn sources_in(nodes: Seq<DocumentNode>) -> Seq<Seq<char>>
    decreases nodes,
{
    if nodes.len() == 0 {
        Seq::empty()
    } else {
        sources_in(nodes.drop_last()) + sources_of(nodes.last())
    }
}

fn collect_sources(node: &DocumentNode, out: &mut Vec<String>)
    ensures
        final(out)@.map_values(|s: String| s@) == old(out)@.map_values(|s: String| s@) + sources_of(
            *node,
        ),
    decreases node,
{
    match node {
        DocumentNode::Element { tag, src, children } => {
            if *tag == Tag::Img {
                if let Some(s) = src {
                    let t = trim(s.as_str());
                    if t.as_str().unicode_len() > 0 {
                        out.push(t);
                    }
                }
            } else if *tag != Tag::Br {
                collect_sources_in(children, out);
            }
        },
        _ => {},
    }
    assert(final(out)@.map_values(|s: String| s@) =~= old(out)@.map_values(|s: String| s@)
        + sources_of(*node));
}

fn collect_sources_in(nodes: &Vec<DocumentNode>, out: &mut Vec<String>)
    ensures
        final(out)@.map_values(|s: String| s@) == old(out)@.map_values(|s: String| s@) + sources_in(
            nodes@,
        ),
    decreases nodes,
{
    let ghost start = out@.map_values(|s: String| s@);
    let mut i: usize = 0;
    assert(start =~= start + sources_in(nodes@.take(0)));
    while i < nodes.len()
        invariant
            i <= nodes.len(),
            out@.map_values(|s: String| s@) == start + sources_in(nodes@.take(i as int)),
        decreases nodes.len() - i,
    {
        collect_sources(&nodes[i], out);
        proof {
            let taken = nodes@.take(i + 1);
            assert(taken.drop_last() =~= nodes@.take(i as int));
        }
        i = i + 1;
        assert(out@.map_values(|s: String| s@) =~= start + sources_in(nodes@.take(i as int)));
    }
    assert(nodes@.take(nodes.len() as int) =~= nodes@);
}

/// The sources that must be fetched to render a fragment: none when
/// images are disabled, else every image source in document order.
pub fn image_sources(nodes: &Vec<DocumentNode>, protocol: GraphicsProtocol) -> (r: Vec<String>)
    ensures
        r@.map_values(|s: String| s@) == (if protocol == GraphicsProtocol::Disabled {
            Seq::<Seq<char>>::empty()
        } else {
            sources_in(nodes@)
        }),
{
    let mut out: Vec<String> = Vec::new();
    if protocol != GraphicsProtocol::Disabled {
        collect_sources_in(nodes, &mut out);
    }
    assert(out@.map_values(|s: String| s@) =~= (if protocol == GraphicsProtocol::Disabled {
        Seq::<Seq<char>>::empty()
    } else {
        sources_in(nodes@)
    }));
    out
}

/// The concatenation of the characters of every text node under `n`.
pub open spec fn text_content(n: DocumentNode) -> Seq<char>
    decreases n,
{
    match n {
        DocumentNode::Text(t) => t@,
        DocumentNode::Ignorable => Seq::empty(),
        DocumentNode::Element { children, .. } => text_content_in(children@),
    }
}

/// The text content of a sequence of nodes, in document order.
pub open spec fn text_content_in(nodes: Seq<DocumentNode>) -> Seq<char>
    decreases nodes,
{
    if nodes.len() == 0 {
        Seq::empty()
    } else {
        text_content_in(nodes.drop_last()) + text_content(nodes.last())
    }
}

/// A tree of text and ignorable nodes under elements whose tag has no
/// style rule of its own (`pre` or an unlisted tag).
pub open spec fn unstyled(n: DocumentNode) -> bool
    decreases n,
{
    match n {
        DocumentNode::Element { tag, children, .. } => (tag == Tag::Pre || tag == Tag::Other)
            && unstyled_in(children@),
        _ => true,
    }
}

/// Every node of the sequence is `unstyled`.
pub open spec fn unstyled_in(nodes: Seq<DocumentNode>) -> bool
    decreases nodes,
{
    nodes.len() == 0 || (unstyled_in(nodes.drop_last()) && unstyled(nodes.last()))
}

proof fn lemma_verbatim_node(
    n: DocumentNode,
    protocol: GraphicsProtocol,
    table: Seq<RenderedImage>,
    r: Seq<char>,
)
    requires
        unstyled(n),
        rendered(n, true, protocol, table, r),
    ensures
        r == text_content(n),
    decreases n,
{
    match n {
        DocumentNode::Element { tag, src, children } => {
            let inner = choose|inner: Seq<char>|
                children_rendered(children@, true, protocol, table, inner) && styled_by(
                    tag,
                    inner,
                    r,
                );
            lemma_verbatim_nodes(children@, protocol, table, inner);
            assert(r.subrange(0, r.len() as int) =~= r);
        },
        _ => {},
    }
}

proof fn lemma_verbatim_nodes(
    nodes: Seq<DocumentNode>,
    protocol: GraphicsProtocol,
    table: Seq<RenderedImage>,
    r: Seq<char>,
)
    requires
        unstyled_in(nodes),
        children_rendered(nodes, true, protocol, table, r),
    ensures
        r == text_content_in(nodes),
    decreases nodes,
{
    if nodes.len() > 0 {
        let k = choose|k: int|
            0 <= k <= r.len() && children_rendered(nodes.drop_last(), true, protocol, table, r.take(k))
                && rendered(nodes.last(), true, protocol, table, r.skip(k));
        lemma_verbatim_nodes(nodes.drop_last(), protocol, table, r.take(k));
        lemma_verbatim_node(nodes.last(), protocol, table, r.skip(k));
        assert(r =~= r.take(k) + r.skip(k));
    } else {
        assert(r =~= Seq::<char>::empty());
    }
}

/// Inside a `pre` element every text node comes out byte for byte, at any
/// depth: a `pre` element whose descendants are text under unstyled
/// elements renders as exactly their text, whether or not whitespace was
/// already kept above it.
pub proof fn lemma_preformatted_verbatim(
    children: Vec<DocumentNode>,
    src: Option<String>,
    pre: bool,
    protocol: GraphicsProtocol,
    table: Seq<RenderedImage>,
    r: Seq<char>,
)
    requires
        unstyled_in(children@),
        rendered(DocumentNode::Element { tag: Tag::Pre, src, children }, pre, protocol, table, r),
    ensures
        r == text_content_in(children@),
{
    let inner = choose|inner: Seq<char>|
        children_rendered(children@, true, protocol, table, inner) && styled_by(Tag::Pre, inner, r);
    lemma_verbatim_nodes(children@, protocol, table, inner);
    assert(r.subrange(0, r.len() as int) =~= r);
}

/// Renderings of the nodes, one each, concatenated in order, render the
/// sequence.
pub proof fn lemma_pieces_in_order(
    nodes: Seq<DocumentNode>,
    pieces: Seq<Seq<char>>,
    pre: bool,
    protocol: GraphicsProtocol,
    table: Seq<RenderedImage>,
)
    requires
        pieces.len() == nodes.len(),
        forall|i: int| 0 <= i < nodes.len() ==> rendered(#[trigger] nodes[i], pre, protocol, table, pieces[i]),
    ensures
        children_rendered(nodes, pre, protocol, table, concat_all(pieces)),
    decreases nodes.len(),
{
    if nodes.len() > 0 {
        let ns = nodes.drop_last();
        let ps = pieces.drop_last();
        assert forall|i: int| 0 <= i < ns.len() implies rendered(#[trigger] ns[i], pre, protocol, table, ps[i]) by {
            assert(ns[i] == nodes[i]);
        }
        lemma_pieces_in_order(ns, ps, pre, protocol, table);
        let r = concat_all(pieces);
        let k = concat_all(ps).len() as int;
        assert(r.take(k) =~= concat_all(ps));
        assert(r.skip(k) =~= pieces.last());
        assert(rendered(nodes.last(), pre, protocol, table, pieces[nodes.len() - 1]));
    }
}

/// Document order is kept: if each sibling renders to its piece, the
/// siblings taken in any permuted order render to the pieces in that same
/// order.
pub proof fn lemma_document_order(
    nodes: Seq<DocumentNode>,
    pieces: Seq<Seq<char>>,
    perm: Seq<int>,
    pre: bool,
    protocol: GraphicsProtocol,
    table: Seq<RenderedImage>,
)
    requires
        pieces.len() == nodes.len(),
        forall|i: int| 0 <= i < nodes.len() ==> rendered(#[trigger] nodes[i], pre, protocol, table, pieces[i]),
        perm.len() == nodes.len(),
        forall|i: int| 0 <= i < perm.len() ==> 0 <= #[trigger] perm[i] < nodes.len(),
        forall|i: int, j: int| 0 <= i < j < perm.len() ==> perm[i] != perm[j],
    ensures
        children_rendered(nodes, pre, protocol, table, concat_all(pieces)),
        children_rendered(
            Seq::new(nodes.len(), |i: int| nodes[perm[i]]),
            pre,
            protocol,
            table,
            concat_all(Seq::new(nodes.len(), |i: int| pieces[perm[i]])),
        ),
{
    lemma_pieces_in_order(nodes, pieces, pre, protocol, table);
    let pn = Seq::new(nodes.len(), |i: int| nodes[perm[i]]);
    let pp = Seq::new(nodes.len(), |i: int| pieces[perm[i]]);
    assert forall|i: int| 0 <= i < pn.len() implies rendered(#[trigger] pn[i], pre, protocol, table, pp[i]) by {
        assert(0 <= perm[i] < nodes.len());
        assert(rendered(nodes[perm[i]], pre, protocol, table, pieces[perm[i]]));
    }
    lemma_pieces_in_order(pn, pp, pre, protocol, table);
}

/// An image element without a `src` attribute renders to nothing.
pub proof fn lemma_missing_src_is_empty(
    children: Vec<DocumentNode>,
    pre: bool,
    protocol: GraphicsProtocol,
    table: Seq<RenderedImage>,
    r: Seq<char>,
)
    requires
        rendered(
            DocumentNode::Element { tag: Tag::Img, src: None, children },
            pre,
            protocol,
            table,
            r,
        ),
    ensures
        r.len() == 0,
{
}

} // verus!
