//! What a reader sees of rendered text: the emphasis escapes taken out.
//! Emphasis never changes the visible characters, so the visible text of a
//! rendering is the plain rendering, with preformatted text kept verbatim.

use vstd::prelude::*;

use crate::render::{
    children_rendered, emphasis_of, image_element_text, lead_of, rendered, styled_by, tail_of,
    DocumentNode, RenderedImage, Tag,
};
use crate::normalize::{collapse_from, collapse_ws};
use crate::protocol::GraphicsProtocol;
use crate::text::is_ws;
use crate::style::{emphasised, rearm, sgr_open, sgr_reset, Emphasis};

verus! {

/// The escape character.
pub open spec fn esc() -> char {
    '\u{1b}'
}

/// `s` holds no escape character.
pub open spec fn no_esc(s: Seq<char>) -> bool {
    forall|i: int| 0 <= i < s.len() ==> s[i] != esc()
}

/// `s` begins with `k`.
pub open spec fn starts_with(s: Seq<char>, k: Seq<char>) -> bool {
    k.len() <= s.len() && s.take(k.len() as int) == k
}

/// The emphasis escape that `s` begins with, if any: one of the opening
/// sequences or the reset.
pub open spec fn leading_escape(s: Seq<char>) -> Option<Seq<char>> {
    if starts_with(s, sgr_reset()) {
        Some(sgr_reset())
    } else if starts_with(s, sgr_open(Emphasis::Bold)) {
        Some(sgr_open(Emphasis::Bold))
    } else if starts_with(s, sgr_open(Emphasis::Heading1)) {
        Some(sgr_open(Emphasis::Heading1))
    } else if starts_with(s, sgr_open(Emphasis::Heading2)) {
        Some(sgr_open(Emphasis::Heading2))
    } else if starts_with(s, sgr_open(Emphasis::Italic)) {
        Some(sgr_open(Emphasis::Italic))
    } else if starts_with(s, sgr_open(Emphasis::Highlight)) {
        Some(sgr_open(Emphasis::Highlight))
    } else {
        None
    }
}

/// `s` with every emphasis escape taken out.
pub open spec fn visible(s: Seq<char>) -> Seq<char>
    decreases s.len(),
{
    if s.len() == 0 {
        s
    } else {
        match leading_escape(s) {
            Some(k) => if k.len() > 0 {
                visible(s.skip(k.len() as int))
            } else {
                s
            },
            None => seq![s[0]] + visible(s.drop_first()),
        }
    }
}

/// `s` is made of characters other than the escape and whole emphasis
/// escapes.
pub open spec fn clean(s: Seq<char>) -> bool
    decreases s.len(),
{
    if s.len() == 0 {
        true
    } else if s[0] != esc() {
        clean(s.drop_first())
    } else {
        match leading_escape(s) {
            Some(k) => k.len() > 0 && clean(s.skip(k.len() as int)),
            None => false,
        }
    }
}

/// `k` is one of the emphasis escapes.
pub open spec fn is_escape(k: Seq<char>) -> bool {
    ||| k == sgr_reset()
    ||| k == sgr_open(Emphasis::Bold)
    ||| k == sgr_open(Emphasis::Heading1)
    ||| k == sgr_open(Emphasis::Heading2)
    ||| k == sgr_open(Emphasis::Italic)
    ||| k == sgr_open(Emphasis::Highlight)
}

proof fn lemma_escape_shape(k: Seq<char>)
    requires
        is_escape(k),
    ensures
        k.len() >= 4,
        k[0] == esc(),
        no_esc(k.drop_first()),
{
    reveal_strlit("\x1b[0m");
    reveal_strlit("\x1b[1m");
    reveal_strlit("\x1b[1;4;37m");
    reveal_strlit("\x1b[1;4m");
    reveal_strlit("\x1b[3m");
    reveal_strlit("\x1b[43;30m");
    assert forall|i: int| 0 <= i < k.drop_first().len() implies k.drop_first()[i] != esc() by {
        assert(k.drop_first()[i] == k[i + 1]);
    }
}

proof fn lemma_escape_unique(s: Seq<char>, k: Seq<char>)
    requires
        is_escape(k),
        starts_with(s, k),
    ensures
        leading_escape(s) == Some(k),
{
    reveal_strlit("\x1b[0m");
    reveal_strlit("\x1b[1m");
    reveal_strlit("\x1b[1;4;37m");
    reveal_strlit("\x1b[1;4m");
    reveal_strlit("\x1b[3m");
    reveal_strlit("\x1b[43;30m");
    assert(s.take(k.len() as int) == k);
    assert(s[1] == k[1]);
    assert(s[2] == k[2]);
    assert(s[3] == k[3]);
    if k.len() > 4 {
        assert(s[4] == k[4]);
    }
    if k.len() > 5 {
        assert(s[5] == k[5]);
    }
    let r = sgr_reset();
    let b = sgr_open(Emphasis::Bold);
    let h1 = sgr_open(Emphasis::Heading1);
    let h2 = sgr_open(Emphasis::Heading2);
    let it = sgr_open(Emphasis::Italic);
    let hl = sgr_open(Emphasis::Highlight);
    if starts_with(s, r) {
        assert(s.take(4)[2] == s[2]);
        assert(s[2] == '0');
    }
    if starts_with(s, b) {
        assert(s.take(4)[3] == s[3]);
        assert(s.take(4)[2] == s[2]);
    }
    if starts_with(s, h1) {
        assert(s.take(h1.len() as int)[5] == s[5]);
        assert(s.take(h1.len() as int)[2] == s[2]);
        assert(s.take(h1.len() as int)[3] == s[3]);
    }
    if starts_with(s, h2) {
        assert(s.take(h2.len() as int)[5] == s[5]);
        assert(s.take(h2.len() as int)[2] == s[2]);
        assert(s.take(h2.len() as int)[3] == s[3]);
    }
    if starts_with(s, it) {
        assert(s.take(4)[2] == s[2]);
    }
}

proof fn lemma_no_escape_here(s: Seq<char>)
    requires
        s.len() > 0,
        s[0] != esc(),
    ensures
        leading_escape(s) is None,
{
    reveal_strlit("\x1b[0m");
    reveal_strlit("\x1b[1m");
    reveal_strlit("\x1b[1;4;37m");
    reveal_strlit("\x1b[1;4m");
    reveal_strlit("\x1b[3m");
    reveal_strlit("\x1b[43;30m");
    if s.len() >= 4 {
        assert(s.take(4)[0] == s[0]);
    }
    if s.len() >= 6 {
        assert(s.take(6)[0] == s[0]);
    }
    if s.len() >= 7 {
        assert(s.take(7)[0] == s[0]);
    }
    if s.len() >= 9 {
        assert(s.take(9)[0] == s[0]);
    }
}

/// Text without escapes is clean and fully visible.
proof fn lemma_plain_text(s: Seq<char>)
    requires
        no_esc(s),
    ensures
        clean(s),
        visible(s) == s,
    decreases s.len(),
{
    if s.len() > 0 {
        let t = s.drop_first();
        assert(no_esc(t)) by {
            assert forall|i: int| 0 <= i < t.len() implies t[i] != esc() by {
                assert(t[i] == s[i + 1]);
            }
        }
        lemma_plain_text(t);
        lemma_no_escape_here(s);
        assert(s =~= seq![s[0]] + t);
    }
}

/// Taking escapes out of a clean text and what follows it is taking them
/// out of each.
proof fn lemma_visible_concat(a: Seq<char>, b: Seq<char>)
    requires
        clean(a),
    ensures
        visible(a + b) == visible(a) + visible(b),
        clean(b) ==> clean(a + b),
    decreases a.len(),
{
    if a.len() == 0 {
        assert(a + b =~= b);
        assert(visible(a) =~= Seq::<char>::empty());
        assert(Seq::<char>::empty() + visible(b) =~= visible(b));
    } else if a[0] != esc() {
        let t = a.drop_first();
        lemma_visible_concat(t, b);
        assert((a + b).drop_first() =~= t + b);
        assert((a + b)[0] == a[0]);
        lemma_no_escape_here(a);
        lemma_no_escape_here(a + b);
        assert(seq![a[0]] + (visible(t) + visible(b)) =~= (seq![a[0]] + visible(t)) + visible(b));
    } else {
        let k = leading_escape(a)->0;
        assert(is_escape(k));
        lemma_escape_shape(k);
        let t = a.skip(k.len() as int);
        lemma_visible_concat(t, b);
        assert((a + b).take(k.len() as int) =~= a.take(k.len() as int));
        lemma_escape_unique(a + b, k);
        assert((a + b).skip(k.len() as int) =~= t + b);
        assert((a + b)[0] == esc());
    }
}

/// An escape followed by a clean text is clean, and shows only that text.
proof fn lemma_escape_then(k: Seq<char>, y: Seq<char>)
    requires
        is_escape(k),
        clean(y),
    ensures
        clean(k + y),
        visible(k + y) == visible(y),
{
    lemma_escape_shape(k);
    let s = k + y;
    assert(s.take(k.len() as int) =~= k);
    lemma_escape_unique(s, k);
    assert(s.skip(k.len() as int) =~= y);
    assert(s[0] == esc());
}

proof fn lemma_rearm_passes(p: Seq<char>, x: Seq<char>, open: Seq<char>)
    requires
        no_esc(p),
    ensures
        rearm(p + x, open) == p + rearm(x, open),
    decreases p.len(),
{
    reveal_strlit("\x1b[0m");
    if p.len() == 0 {
        assert(p + x =~= x);
        assert(p + rearm(x, open) =~= rearm(x, open));
    } else {
        let s = p + x;
        let t = p.drop_first();
        assert(no_esc(t)) by {
            assert forall|i: int| 0 <= i < t.len() implies t[i] != esc() by {
                assert(t[i] == p[i + 1]);
            }
        }
        lemma_rearm_passes(t, x, open);
        assert(s[0] == p[0]);
        if s.len() >= 4 {
            assert(s.take(4)[0] == s[0]);
        }
        assert(s.drop_first() =~= t + x);
        assert(seq![p[0]] + (t + rearm(x, open)) =~= p + rearm(x, open));
    }
}

/// Writing the opening escape again after each reset keeps a clean text
/// clean and changes nothing visible.
proof fn lemma_rearm_visible(s: Seq<char>, e: Emphasis)
    requires
        clean(s),
    ensures
        clean(rearm(s, sgr_open(e))),
        visible(rearm(s, sgr_open(e))) == visible(s),
    decreases s.len(),
{
    reveal_strlit("\x1b[0m");
    let open = sgr_open(e);
    assert(is_escape(open));
    if s.len() == 0 {
    } else if s[0] != esc() {
        let t = s.drop_first();
        lemma_rearm_visible(t, e);
        if s.len() >= 4 {
            assert(s.take(4)[0] == s[0]);
        }
        let rt = rearm(t, open);
        assert(no_esc(seq![s[0]]));
        lemma_plain_text(seq![s[0]]);
        lemma_visible_concat(seq![s[0]], rt);
        lemma_visible_concat(seq![s[0]], t);
        assert(seq![s[0]] + t =~= s);
    } else {
        let k = leading_escape(s)->0;
        assert(is_escape(k));
        lemma_escape_shape(k);
        let y = s.skip(k.len() as int);
        lemma_rearm_visible(y, e);
        assert(s =~= k + y);
        if k == sgr_reset() {
            assert(s.take(4) == sgr_reset());
            lemma_escape_then(open, rearm(y, open));
            lemma_escape_then(sgr_reset(), open + rearm(y, open));
            assert(rearm(s, open) =~= sgr_reset() + (open + rearm(y, open)));
            lemma_escape_then(k, y);
        } else {
            if s.len() >= 4 && s.take(4) == sgr_reset() {
                assert(starts_with(s, sgr_reset()));
            }
            let p = k.drop_first();
            lemma_rearm_passes(p, y, open);
            assert(s.drop_first() =~= p + y);
            assert(seq![esc()] + (p + rearm(y, open)) =~= k + rearm(y, open));
            lemma_escape_then(k, rearm(y, open));
            lemma_escape_then(k, y);
        }
    }
}

/// Emphasis keeps a clean text clean and leaves its visible characters as
/// they were.
pub proof fn lemma_emphasis_invisible(r: Seq<char>, s: Seq<char>, e: Emphasis)
    requires
        clean(s),
        emphasised(r, s, e),
    ensures
        clean(r),
        visible(r) == visible(s),
{
    if r != s {
        let open = sgr_open(e);
        lemma_rearm_visible(s, e);
        let body = rearm(s, open);
        assert(is_escape(sgr_reset()));
        lemma_escape_shape(sgr_reset());
        lemma_plain_text(Seq::<char>::empty());
        lemma_escape_then(sgr_reset(), Seq::<char>::empty());
        assert(sgr_reset() + Seq::<char>::empty() =~= sgr_reset());
        lemma_visible_concat(body, sgr_reset());
        assert(is_escape(open));
        lemma_escape_then(open, body + sgr_reset());
        assert(r =~= open + (body + sgr_reset()));
        assert(visible(body) + Seq::<char>::empty() =~= visible(body));
    }
}

/// The rendering of a node when no emphasis shows: text collapsed unless
/// whitespace is kept, images and line breaks by their rules, and every
/// other element as its tag's lead, its children in order, and its tail.
pub open spec fn plain(
    n: DocumentNode,
    pre: bool,
    protocol: GraphicsProtocol,
    table: Seq<RenderedImage>,
) -> Seq<char>
    decreases n,
{
    match n {
        DocumentNode::Text(t) => if pre {
            t@
        } else {
            collapse_ws(t@)
        },
        DocumentNode::Ignorable => Seq::empty(),
        DocumentNode::Element { tag, src, children } => {
            if tag == Tag::Img {
                image_element_text(src, protocol, table)
            } else if tag == Tag::Br {
                "\n"@
            } else {
                lead_of(tag) + plain_in(children@, pre || tag == Tag::Pre, protocol, table)
                    + tail_of(tag)
            }
        },
    }
}

/// The plain renderings of a sequence of nodes, concatenated in order.
pub open spec fn plain_in(
    nodes: Seq<DocumentNode>,
    pre: bool,
    protocol: GraphicsProtocol,
    table: Seq<RenderedImage>,
) -> Seq<char>
    decreases nodes,
{
    if nodes.len() == 0 {
        Seq::empty()
    } else {
        plain_in(nodes.drop_last(), pre, protocol, table) + plain(nodes.last(), pre, protocol, table)
    }
}

/// No text node under `n`, and no image text it uses, holds an escape
/// character.
pub open spec fn escape_free(n: DocumentNode, protocol: GraphicsProtocol, table: Seq<RenderedImage>) -> bool
    decreases n,
{
    match n {
        DocumentNode::Text(t) => no_esc(t@),
        DocumentNode::Ignorable => true,
        DocumentNode::Element { tag, src, children } => {
            if tag == Tag::Img {
                no_esc(image_element_text(src, protocol, table))
            } else if tag == Tag::Br {
                true
            } else {
                escape_free_in(children@, protocol, table)
            }
        },
    }
}

/// Every node of the sequence is `escape_free`.
pub open spec fn escape_free_in(
    nodes: Seq<DocumentNode>,
    protocol: GraphicsProtocol,
    table: Seq<RenderedImage>,
) -> bool
    decreases nodes,
{
    nodes.len() == 0 || (escape_free_in(nodes.drop_last(), protocol, table) && escape_free(
        nodes.last(),
        protocol,
        table,
    ))
}

proof fn lemma_collapse_no_esc(s: Seq<char>, in_run: bool)
    requires
        no_esc(s),
    ensures
        no_esc(collapse_from(s, in_run)),
    decreases s.len(),
{
    if s.len() > 0 {
        let t = s.drop_first();
        assert(no_esc(t)) by {
            assert forall|i: int| 0 <= i < t.len() implies t[i] != esc() by {
                assert(t[i] == s[i + 1]);
            }
        }
        lemma_collapse_no_esc(t, is_ws(s[0]));
        let rest = collapse_from(t, is_ws(s[0]));
        let r = collapse_from(s, in_run);
        assert forall|i: int| 0 <= i < r.len() implies r[i] != esc() by {
            if !(is_ws(s[0]) && in_run) && i > 0 {
                assert(r[i] == rest[i - 1]);
            }
        }
    }
}

proof fn lemma_fixed_text(s: Seq<char>, y: Seq<char>)
    requires
        no_esc(s),
        clean(y),
    ensures
        clean(s + y),
        visible(s + y) == s + visible(y),
{
    lemma_plain_text(s);
    lemma_visible_concat(s, y);
}

proof fn lemma_visible_node(
    n: DocumentNode,
    pre: bool,
    protocol: GraphicsProtocol,
    table: Seq<RenderedImage>,
    r: Seq<char>,
)
    requires
        escape_free(n, protocol, table),
        rendered(n, pre, protocol, table, r),
    ensures
        clean(r),
        visible(r) == plain(n, pre, protocol, table),
    decreases n,
{
    match n {
        DocumentNode::Text(t) => {
            lemma_collapse_no_esc(t@, false);
            lemma_plain_text(r);
        },
        DocumentNode::Ignorable => {
            lemma_plain_text(r);
        },
        DocumentNode::Element { tag, src, children } => {
            if tag == Tag::Img {
                lemma_plain_text(r);
            } else if tag == Tag::Br {
                reveal_strlit("\n");
                assert(no_esc(r));
                lemma_plain_text(r);
            } else {
                let inner = choose|inner: Seq<char>|
                    children_rendered(children@, pre || tag == Tag::Pre, protocol, table, inner)
                        && styled_by(tag, inner, r);
                lemma_visible_nodes(children@, pre || tag == Tag::Pre, protocol, table, inner);
                let lead = lead_of(tag);
                let tail = tail_of(tag);
                let mid = r.subrange(lead.len() as int, r.len() - tail.len());
                match emphasis_of(tag) {
                    Some(e) => lemma_emphasis_invisible(mid, inner, e),
                    None => {},
                }
                reveal_strlit("\n");
                assert(no_esc(lead));
                assert(no_esc(tail));
                lemma_plain_text(tail);
                lemma_visible_concat(mid, tail);
                lemma_fixed_text(lead, mid + tail);
                assert(r =~= lead + (mid + tail));
                assert(lead + (visible(inner) + tail) =~= lead + visible(inner) + tail);
            }
        },
    }
}

proof fn lemma_visible_nodes(
    nodes: Seq<DocumentNode>,
    pre: bool,
    protocol: GraphicsProtocol,
    table: Seq<RenderedImage>,
    r: Seq<char>,
)
    requires
        escape_free_in(nodes, protocol, table),
        children_rendered(nodes, pre, protocol, table, r),
    ensures
        clean(r),
        visible(r) == plain_in(nodes, pre, protocol, table),
    decreases nodes,
{
    if nodes.len() == 0 {
        lemma_plain_text(r);
    } else {
        let k = choose|k: int|
            0 <= k <= r.len() && children_rendered(nodes.drop_last(), pre, protocol, table, r.take(k))
                && rendered(nodes.last(), pre, protocol, table, r.skip(k));
        lemma_visible_nodes(nodes.drop_last(), pre, protocol, table, r.take(k));
        lemma_visible_node(nodes.last(), pre, protocol, table, r.skip(k));
        lemma_visible_concat(r.take(k), r.skip(k));
        assert(r =~= r.take(k) + r.skip(k));
    }
}

/// Emphasis never alters what is read: when no text or image text of the
/// fragment holds an escape character, the visible characters of any
/// rendering are exactly the plain rendering.
pub proof fn lemma_visible_is_plain(
    nodes: Seq<DocumentNode>,
    protocol: GraphicsProtocol,
    table: Seq<RenderedImage>,
    r: Seq<char>,
)
    requires
        escape_free_in(nodes, protocol, table),
        children_rendered(nodes, false, protocol, table, r),
    ensures
        visible(r) == plain_in(nodes, false, protocol, table),
{
    lemma_visible_nodes(nodes, false, protocol, table, r);
}

/// Inside a `pre` element every descendant text node is read byte for
/// byte, at any depth and under any emphasis: the visible text of the
/// element is its children's plain rendering with whitespace kept.
pub proof fn lemma_preformatted_visible(
    children: Vec<DocumentNode>,
    src: Option<String>,
    pre: bool,
    protocol: GraphicsProtocol,
    table: Seq<RenderedImage>,
    r: Seq<char>,
)
    requires
        escape_free_in(children@, protocol, table),
        rendered(DocumentNode::Element { tag: Tag::Pre, src, children }, pre, protocol, table, r),
    ensures
        visible(r) == plain_in(children@, true, protocol, table),
{
    let n = DocumentNode::Element { tag: Tag::Pre, src, children };
    assert(escape_free(n, protocol, table));
    lemma_visible_node(n, pre, protocol, table, r);
    assert(lead_of(Tag::Pre) + plain_in(children@, true, protocol, table) + tail_of(Tag::Pre)
        =~= plain_in(children@, true, protocol, table));
}

} // verus!
