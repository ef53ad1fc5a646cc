use vstd::prelude::*;
use crate::meta::{filled, meta_clipped, Meta, MetaModel};
use crate::rewrite::str_eq;
use crate::style::{trimmed, trimmed_str};
use html5ever::tendril::TendrilSink;

verus! {

/// An HTML document tree reduced to what metadata extraction reads: element
/// names, attributes, text, and document order.
pub enum HtmlNode {
    Element { name: String, attrs: Vec<(String, String)>, children: Vec<HtmlNode> },
    Text { text: String },
    Container { children: Vec<HtmlNode> },
}

/// The value of the first attribute called `name` whose trimmed value is
/// nonempty; an attribute with an empty value counts as absent.
pub open spec fn attr_value(attrs: Seq<(Seq<char>, Seq<char>)>, name: Seq<char>) -> Option<
    Seq<char>,
>
    decreases attrs.len(),
{
    if attrs.len() == 0 {
        None
    } else if attrs[0].0 == name && trimmed(attrs[0].1).len() > 0 {
        Some(trimmed(attrs[0].1))
    } else {
        attr_value(attrs.subrange(1, attrs.len() as int), name)
    }
}

/// How one `<meta>` tag changes the metadata: its `name` attribute (falling
/// back to `property`) selects the field; description and title fill only when
/// still empty, the image only when still unset.
pub open spec fn apply_meta_tag(m: MetaModel, attrs: Seq<(Seq<char>, Seq<char>)>) -> MetaModel {
    let key = match attr_value(attrs, "name"@) {
        Some(k) => Some(k),
        None => attr_value(attrs, "property"@),
    };
    match key {
        None => m,
        Some(k) => if (k == "description"@ || k == "og:description"@ || k
            == "twitter:description"@) && m.description.len() == 0 {
            match attr_value(attrs, "content"@) {
                Some(d) => MetaModel { description: d, ..m },
                None => m,
            }
        } else if (k == "og:title"@ || k == "twitter:title"@) && m.title.len() == 0 {
            match attr_value(attrs, "content"@) {
                Some(t) => MetaModel { title: t, ..m },
                None => m,
            }
        } else if (k == "og:image"@ || k == "twitter:image"@) && m.image is None {
            match attr_value(attrs, "content"@) {
                Some(i) => MetaModel { image: Some(i), ..m },
                None => m,
            }
        } else {
            m
        },
    }
}

/// The concatenated text of the direct text-node children.
pub open spec fn texts(cs: Seq<HtmlNode>) -> Seq<char>
    decreases cs.len(),
{
    if cs.len() == 0 {
        Seq::empty()
    } else {
        (match cs[0] {
            HtmlNode::Text { text } => text@,
            _ => Seq::empty(),
        }) + texts(cs.subrange(1, cs.len() as int))
    }
}

/// How one node's own data changes the metadata: `<meta>` tags fill empty
/// fields; a `<title>` element's trimmed text overwrites the title
/// unconditionally.
pub open spec fn apply_node(m: MetaModel, node: HtmlNode) -> MetaModel {
    match node {
        HtmlNode::Element { name, attrs, children } => if name@ == "meta"@ {
            apply_meta_tag(m, attrs.deep_view())
        } else if name@ == "title"@ {
            MetaModel { title: trimmed(texts(children@)), ..m }
        } else {
            m
        },
        _ => m,
    }
}

/// The depth-first, pre-order walk: a node applies its own data, then visits
/// its children in order; once the metadata is filled, no further sibling is
/// visited at any level.
pub open spec fn walk_node(node: HtmlNode, m: MetaModel) -> MetaModel
    decreases node, 0int,
{
    match node {
        HtmlNode::Element { name, attrs, children } => walk_children(
            children@,
            apply_node(m, node),
        ),
        HtmlNode::Text { .. } => m,
        HtmlNode::Container { children } => walk_children(children@, m),
    }
}

pub open spec fn walk_children(cs: Seq<HtmlNode>, m: MetaModel) -> MetaModel
    decreases cs, 1int,
{
    if cs.len() == 0 {
        m
    } else {
        let m1 = walk_node(cs[0], m);
        if filled(m1) {
            m1
        } else {
            walk_children(cs.subrange(1, cs.len() as int), m1)
        }
    }
}

/// An empty metadata record.
pub open spec fn empty_meta() -> MetaModel {
    MetaModel { title: Seq::empty(), description: Seq::empty(), url: None, image: None }
}

/// The metadata of a document tree: the walk from an empty record, then title
/// and description clipped.
pub open spec fn extracted(node: HtmlNode) -> MetaModel {
    meta_clipped(walk_node(node, empty_meta()))
}

fn attr_value_from(attrs: &Vec<(String, String)>, name: &str, i: usize) -> (r: Option<String>)
    requires
        i <= attrs.len(),
    ensures
        (match r {
            Some(v) => attr_value(attrs.deep_view().skip(i as int), name@) == Some(v@),
            None => attr_value(attrs.deep_view().skip(i as int), name@) is None,
        }),
    decreases attrs.len() - i,
{
    if i == attrs.len() {
        proof {
            assert(attrs.deep_view().skip(i as int) =~= Seq::<(Seq<char>, Seq<char>)>::empty());
        }
        None
    } else {
        proof {
            assert(attrs.deep_view().skip(i as int).subrange(
                1,
                attrs.deep_view().skip(i as int).len() as int,
            ) =~= attrs.deep_view().skip(i as int + 1));
            assert(attrs.deep_view().skip(i as int)[0] == attrs.deep_view()[i as int]);
        }
        if str_eq(attrs[i].0.as_str(), name) {
            let v = trimmed_str(attrs[i].1.as_str());
            if v.as_str().unicode_len() > 0 {
                return Some(v);
            }
        }
        attr_value_from(attrs, name, i + 1)
    }
}

fn apply_meta_tag_exec(attrs: &Vec<(String, String)>, meta: &mut Meta)
    ensures
        final(meta)@ == apply_meta_tag(old(meta)@, attrs.deep_view()),
{
    proof {
        assert(attrs.deep_view().skip(0) =~= attrs.deep_view());
    }
    let key = match attr_value_from(attrs, "name", 0) {
        Some(k) => Some(k),
        None => attr_value_from(attrs, "property", 0),
    };
    let k = match key {
        None => {
            return ;
        },
        Some(k) => k,
    };
    let ks = k.as_str();
    if (str_eq(ks, "description") || str_eq(ks, "og:description") || str_eq(
        ks,
        "twitter:description",
    )) && meta.description.as_str().unicode_len() == 0 {
        if let Some(d) = attr_value_from(attrs, "content", 0) {
            meta.description = d;
        }
        proof {
            assert(meta@ =~= apply_meta_tag(old(meta)@, attrs.deep_view()));
        }
    } else if (str_eq(ks, "og:title") || str_eq(ks, "twitter:title"))
        && meta.title.as_str().unicode_len() == 0 {
        if let Some(t) = attr_value_from(attrs, "content", 0) {
            meta.title = t;
        }
        proof {
            assert(meta@ =~= apply_meta_tag(old(meta)@, attrs.deep_view()));
        }
    } else if (str_eq(ks, "og:image") || str_eq(ks, "twitter:image")) && meta.image.is_none() {
        if let Some(i) = attr_value_from(attrs, "content", 0) {
            meta.image = Some(i);
        }
        proof {
            assert(meta@ =~= apply_meta_tag(old(meta)@, attrs.deep_view()));
        }
    } else {
        proof {
            assert(meta@ =~= apply_meta_tag(old(meta)@, attrs.deep_view()));
        }
    }
}

fn texts_from(cs: &Vec<HtmlNode>, i: usize) -> (r: String)
    requires
        i <= cs.len(),
    ensures
        r@ == texts(cs@.skip(i as int)),
    decreases cs.len() - i,
{
    if i == cs.len() {
        proof {
            assert(cs@.skip(i as int) =~= Seq::<HtmlNode>::empty());
        }
        String::new()
    } else {
        proof {
            assert(cs@.skip(i as int).subrange(1, cs@.skip(i as int).len() as int) =~= cs@.skip(
                i as int + 1,
            ));
            assert(cs@.skip(i as int)[0] == cs@[i as int]);
        }
        let rest = texts_from(cs, i + 1);
        match &cs[i] {
            HtmlNode::Text { text } => {
                let mut out = text.clone();
                out.append(rest.as_str());
                out
            },
            _ => rest,
        }
    }
}

/// Walk one node: apply its own data, then visit its children in order,
/// stopping once the metadata is filled.
pub fn walk(node: &HtmlNode, meta: &mut Meta)
    ensures
        final(meta)@ == walk_node(*node, old(meta)@),
    decreases *node, 0int,
{
    match node {
        HtmlNode::Element { name, attrs, children } => {
            if str_eq(name.as_str(), "meta") {
                apply_meta_tag_exec(attrs, meta);
            } else if str_eq(name.as_str(), "title") {
                let t = texts_from(children, 0);
                proof {
                    assert(children@.skip(0) =~= children@);
                }
                meta.title = trimmed_str(t.as_str());
            }
            proof {
                assert(meta@ =~= apply_node(old(meta)@, *node));
                assert(children@.skip(0) =~= children@);
            }
            walk_nodes(children, 0, meta);
        },
        HtmlNode::Text { .. } => {
        },
        HtmlNode::Container { children } => {
            proof {
                assert(children@.skip(0) =~= children@);
            }
            walk_nodes(children, 0, meta);
        },
    }
}

fn walk_nodes(cs: &Vec<HtmlNode>, i: usize, meta: &mut Meta)
    requires
        i <= cs.len(),
    ensures
        final(meta)@ == walk_children(cs@.skip(i as int), old(meta)@),
    decreases cs@, 1int, cs.len() - i,
{
    if i == cs.len() {
        proof {
            assert(cs@.skip(i as int) =~= Seq::<HtmlNode>::empty());
        }
        return ;
    }
    proof {
        assert(cs@.skip(i as int).subrange(1, cs@.skip(i as int).len() as int) =~= cs@.skip(
            i as int + 1,
        ));
        assert(cs@.skip(i as int)[0] == cs@[i as int]);
    }
    walk(&cs[i], meta);
    if meta.is_filled() {
        return ;
    }
    walk_nodes(cs, i + 1, meta);
}

/// The metadata of a document tree: walk from an empty record, then clip
/// title and description.
pub fn extract_meta(node: &HtmlNode) -> (m: Meta)
    ensures
        m@ == extracted(*node),
{
    let mut meta = Meta::default();
    proof {
        assert(meta@ =~= empty_meta());
    }
    walk(node, &mut meta);
    meta.truncate();
    meta
}

/// What html5ever's document parse yields for given bytes, reduced to the
/// names, attributes and text the extraction reads.
pub uninterp spec fn dom_of(html: Seq<u8>) -> HtmlNode;

#[verifier::external_type_specification]
#[verifier::external_body]
pub struct ExNode(markup5ever_rcdom::Node);

/// Relies on markup5ever_rcdom's tree shape: each node is carried over one for
/// one, with its element name, attributes and text.
#[verifier::external_body]
fn dom_node(h: &std::rc::Rc<markup5ever_rcdom::Node>) -> HtmlNode {
    let children: Vec<HtmlNode> = h.children.borrow().iter().map(dom_node).collect();
    match &h.data {
        markup5ever_rcdom::NodeData::Element { name, attrs, .. } => HtmlNode::Element {
            name: name.local.as_ref().to_string(),
            attrs: attrs.borrow().iter().map(
                |a| (a.name.local.as_ref().to_string(), a.value.to_string()),
            ).collect(),
            children,
        },
        markup5ever_rcdom::NodeData::Text { contents } => HtmlNode::Text {
            text: contents.borrow().to_string(),
        },
        _ => HtmlNode::Container { children },
    }
}

/// Relies on html5ever's parse_document driven into markup5ever_rcdom: the
/// parsed tree is a function of the bytes alone.
#[verifier::external_body]
fn parse_dom(html: &[u8]) -> (n: HtmlNode)
    ensures
        n == dom_of(html@),
{
    let opts = html5ever::ParseOpts {
        tree_builder: html5ever::tree_builder::TreeBuilderOpts {
            scripting_enabled: false,
            drop_doctype: true,
            ..Default::default()
        },
        ..Default::default()
    };
    let mut bytes = html;
    let dom = html5ever::parse_document(markup5ever_rcdom::RcDom::default(), opts)
        .from_utf8()
        .read_from(&mut bytes)
        .unwrap();
    dom_node(&dom.document)
}

/// Parse finished HTML bytes and extract the page metadata from them.
pub fn parse_html_meta(html: &[u8]) -> (m: Meta)
    ensures
        m@ == extracted(dom_of(html@)),
{
    let node = parse_dom(html);
    extract_meta(&node)
}

} // verus!
