//! The named parts of an Inkscape drawing: each group labelled by Inkscape,
//! but for the layers, with its source forced to display.
use crate::sheet::{push_char, PartMap, INKSCAPE_NS};
use vstd::prelude::*;

verus! {

/// An attribute of an XML element.
pub struct XmlAttribute {
    /// The URI of its namespace, if it has one.
    pub namespace: Option<String>,
    /// Its local name.
    pub name: String,
    pub value: String,
}

/// An attribute of an XML element, as plain text.
pub struct XmlAttributeView {
    pub namespace: Option<Seq<char>>,
    pub name: Seq<char>,
    pub value: Seq<char>,
}

impl View for XmlAttribute {
    type V = XmlAttributeView;

    open spec fn view(&self) -> XmlAttributeView {
        XmlAttributeView {
            namespace: match self.namespace {
                Some(n) => Some(n@),
                None => None,
            },
            name: self.name@,
            value: self.value@,
        }
    }
}

/// A node of an XML document.
pub struct XmlNode {
    /// Whether the node is an element.
    pub element: bool,
    /// The local name of an element; empty for other nodes.
    pub name: String,
    /// The attributes of an element, in document order.
    pub attributes: Vec<XmlAttribute>,
    /// The source text the node spans.
    pub text: String,
}

/// A node of an XML document, as plain values.
pub struct XmlNodeView {
    pub element: bool,
    pub name: Seq<char>,
    pub attributes: Seq<XmlAttributeView>,
    pub text: Seq<char>,
}

impl View for XmlNode {
    type V = XmlNodeView;

    open spec fn view(&self) -> XmlNodeView {
        XmlNodeView {
            element: self.element,
            name: self.name@,
            attributes: self.attributes@.map_values(|a: XmlAttribute| a@),
            text: self.text@,
        }
    }
}

/// The nodes of a parsed document as plain values; `None` where there is no
/// document.
pub open spec fn nodes_view(r: Option<Vec<XmlNode>>) -> Option<Seq<XmlNodeView>> {
    match r {
        Some(v) => Some(v@.map_values(|n: XmlNode| n@)),
        None => None,
    }
}

/// The nodes of the XML document `svg` that roxmltree's `Document::parse`
/// gives, root first and then every descendant in document order; `None`
/// where it rejects the text.
pub uninterp spec fn xml_nodes(svg: Seq<char>) -> Option<Seq<XmlNodeView>>;

/// Calls roxmltree's `Document::parse` on `svg` and lists the descendants
/// of the document's root, the root first, in document order: for each,
/// whether it is an element, its local tag name, its attributes with their
/// namespace URIs, and the source text its range spans. The contract claims
/// only that the result is the one that [`xml_nodes`] names for `svg`.
#[verifier::external_body]
fn parse_xml_nodes(svg: &str) -> (r: Option<Vec<XmlNode>>)
    ensures
        nodes_view(r) == xml_nodes(svg@),
{
    let doc = roxmltree::Document::parse(svg).ok()?;
    Some(doc.descendants().map(|n| XmlNode {
        element: n.is_element(),
        name: n.tag_name().name().to_string(),
        attributes: n.attributes().map(|a| XmlAttribute {
            namespace: a.namespace().map(|s| s.to_string()),
            name: a.name().to_string(),
            value: a.value().to_string(),
        }).collect(),
        text: svg[n.range()].to_string(),
    }).collect())
}

/// The value of the first of `attrs` with the given namespace and local
/// name.
pub open spec fn attribute_value(attrs: Seq<XmlAttributeView>, namespace: Seq<char>, name: Seq<char>) -> Option<Seq<char>>
    decreases attrs.len(),
{
    if attrs.len() == 0 {
        None
    } else if attrs[0].namespace == Some(namespace) && attrs[0].name == name {
        Some(attrs[0].value)
    } else {
        attribute_value(attrs.drop_first(), namespace, name)
    }
}

/// The label of a node that is a named part: an element `g` that Inkscape
/// labels and does not mark as a layer.
pub open spec fn part_label(n: XmlNodeView) -> Option<Seq<char>> {
    if n.element && n.name == "g"@ && attribute_value(n.attributes, INKSCAPE_NS@, "groupmode"@)
        != Some("layer"@) {
        attribute_value(n.attributes, INKSCAPE_NS@, "label"@)
    } else {
        None
    }
}

/// The first position from `i` on where `p` occurs in `s`.
pub open spec fn find_from(s: Seq<char>, p: Seq<char>, i: int) -> Option<int>
    decreases s.len() + 1 - i,
{
    if i < 0 || i + p.len() > s.len() {
        None
    } else if s.subrange(i, i + p.len()) == p {
        Some(i)
    } else {
        find_from(s, p, i + 1)
    }
}

/// `s` with the first occurrence of `p` replaced by `t`.
pub open spec fn replace_first(s: Seq<char>, p: Seq<char>, t: Seq<char>) -> Seq<char> {
    match find_from(s, p, 0) {
        Some(i) => s.subrange(0, i) + t + s.subrange(i + p.len(), s.len() as int),
        None => s,
    }
}

/// The source of a part, forced to display.
pub open spec fn shown(text: Seq<char>) -> Seq<char> {
    replace_first(text, "display:none"@, "display:inline"@)
}

/// The named parts among `nodes`: each part's shown source under its
/// label, a later part replacing an earlier one of the same label.
pub open spec fn labeled_parts_of(nodes: Seq<XmlNodeView>) -> Map<Seq<char>, Seq<char>>
    decreases nodes.len(),
{
    if nodes.len() == 0 {
        Map::empty()
    } else {
        let m = labeled_parts_of(nodes.drop_last());
        match part_label(nodes.last()) {
            Some(label) => m.insert(label, shown(nodes.last().text)),
            None => m,
        }
    }
}

/// The characters of `s`.
fn chars_of(s: &str) -> (r: Vec<char>)
    ensures
        r@ == s@,
{
    broadcast use vstd::string::group_string_axioms;

    let mut r: Vec<char> = Vec::new();
    for c in it: s.chars()
        invariant
            r@ == it.seq().take(it.index() as int),
    {
        r.push(c);
    }
    r
}

/// Whether `p` occurs in `s` at `i`.
fn occurs_at(s: &Vec<char>, p: &Vec<char>, i: usize) -> (r: bool)
    requires
        i + p@.len() <= s@.len(),
    ensures
        r == (s@.subrange(i as int, i + p@.len()) == p@),
{
    let sl = s.len();
    let mut k: usize = 0;
    while k < p.len()
        invariant
            k <= p@.len(),
            sl == s@.len(),
            i + p@.len() <= s@.len(),
            s@.subrange(i as int, i + k) == p@.subrange(0, k as int),
        decreases p@.len() - k,
    {
        if s[i + k] != p[k] {
            assert(s@.subrange(i as int, i + p@.len())[k as int] != p@[k as int]);
            return false;
        }
        assert(s@.subrange(i as int, i + k + 1) =~= p@.subrange(0, k + 1));
        k = k + 1;
    }
    assert(p@.subrange(0, p@.len() as int) =~= p@);
    true
}

/// Appends `chars[from..to]`.
fn push_chars(s: &mut String, chars: &Vec<char>, from: usize, to: usize)
    requires
        from <= to <= chars@.len(),
    ensures
        final(s)@ == old(s)@ + chars@.subrange(from as int, to as int),
{
    let mut k: usize = from;
    while k < to
        invariant
            from <= k <= to <= chars@.len(),
            s@ == old(s)@ + chars@.subrange(from as int, k as int),
        decreases to - k,
    {
        push_char(s, chars[k]);
        assert(chars@.subrange(from as int, k + 1) =~= chars@.subrange(from as int, k as int).push(
            chars@[k as int],
        ));
        k = k + 1;
    }
}

/// `text` with its first `display:none` made `display:inline`.
fn show(text: &str) -> (r: String)
    ensures
        r@ == shown(text@),
{
    let s = chars_of(text);
    let p = chars_of("display:none");
    let ghost ps = "display:none"@;
    let n = s.len();
    let m = p.len();
    proof {
        reveal_strlit("display:none");
        reveal_strlit("display:inline");
    }
    assert(m == 12);
    if m > n {
        return String::from_str(text);
    }
    let mut i: usize = 0;
    while i <= n - m
        invariant
            s@ == text@,
            p@ == ps,
            n == s@.len(),
            m == p@.len(),
            0 < m <= n,
            ps == "display:none"@,
            find_from(s@, ps, 0) == find_from(s@, ps, i as int),
        decreases n - i,
    {
        if occurs_at(&s, &p, i) {
            assert(find_from(s@, ps, i as int) == Some(i as int));
            let mut r = String::new();
            push_chars(&mut r, &s, 0, i);
            r.append("display:inline");
            push_chars(&mut r, &s, i + m, n);
            assert(r@ =~= s@.subrange(0, i as int) + "display:inline"@ + s@.subrange(i + m, n as int));
            return r;
        }
        i = i + 1;
    }
    String::from_str(text)
}

/// Whether `a` has the namespace `namespace` and the local name `name`.
fn attribute_is(a: &XmlAttribute, namespace: &String, name: &String) -> (r: bool)
    ensures
        r == (a@.namespace == Some(namespace@) && a@.name == name@),
{
    match &a.namespace {
        Some(ns) => *ns == *namespace && a.name == *name,
        None => false,
    }
}

/// The value of the first of `attrs` with the given namespace and local
/// name.
fn find_attribute<'a>(attrs: &'a Vec<XmlAttribute>, namespace: &String, name: &String) -> (r: Option<&'a String>)
    ensures
        match r {
            Some(v) => attribute_value(attrs@.map_values(|a: XmlAttribute| a@), namespace@, name@)
                == Some(v@),
            None => attribute_value(attrs@.map_values(|a: XmlAttribute| a@), namespace@, name@)
                is None,
        },
{
    let ghost all = attrs@.map_values(|a: XmlAttribute| a@);
    assert(all.subrange(0, all.len() as int) =~= all);
    let mut i: usize = 0;
    while i < attrs.len()
        invariant
            i <= attrs@.len(),
            all == attrs@.map_values(|a: XmlAttribute| a@),
            attribute_value(all, namespace@, name@) == attribute_value(
                all.subrange(i as int, all.len() as int),
                namespace@,
                name@,
            ),
        decreases attrs@.len() - i,
    {
        assert(all.subrange(i as int, all.len() as int).drop_first() =~= all.subrange(
            i + 1,
            all.len() as int,
        ));
        if attribute_is(&attrs[i], namespace, name) {
            return Some(&attrs[i].value);
        }
        i = i + 1;
    }
    None
}

/// The named parts among `nodes`: each element `g` that Inkscape labels,
/// but for the layers, with its source forced to display, under its label;
/// a later part replaces an earlier one of the same label.
pub fn labeled_parts(nodes: &Vec<XmlNode>) -> (r: PartMap)
    ensures
        r.wf(),
        r@ == labeled_parts_of(nodes@.map_values(|n: XmlNode| n@)),
{
    let ghost all = nodes@.map_values(|n: XmlNode| n@);
    let ns = String::from_str(INKSCAPE_NS);
    let groupmode = String::from_str("groupmode");
    let label_name = String::from_str("label");
    let g = String::from_str("g");
    let layer = String::from_str("layer");
    let mut parts = PartMap::new();
    let mut i: usize = 0;
    while i < nodes.len()
        invariant
            i <= nodes@.len(),
            all == nodes@.map_values(|n: XmlNode| n@),
            ns@ == INKSCAPE_NS@,
            groupmode@ == "groupmode"@,
            label_name@ == "label"@,
            g@ == "g"@,
            layer@ == "layer"@,
            parts.wf(),
            parts@ == labeled_parts_of(all.take(i as int)),
        decreases nodes@.len() - i,
    {
        let node = &nodes[i];
        assert(all.take(i + 1).drop_last() =~= all.take(i as int));
        assert(node.attributes@.map_values(|a: XmlAttribute| a@) == all[i as int].attributes);
        let is_group = node.element && node.name == g;
        if is_group {
            let is_layer = match find_attribute(&node.attributes, &ns, &groupmode) {
                Some(mode) => *mode == layer,
                None => false,
            };
            if !is_layer {
                match find_attribute(&node.attributes, &ns, &label_name) {
                    Some(label) => {
                        parts.insert(label.clone(), show(node.text.as_str()));
                    },
                    None => {},
                }
            }
        }
        i = i + 1;
    }
    assert(all.take(nodes@.len() as int) =~= all);
    parts
}

/// The named parts of the Inkscape drawing `svg`: each group that Inkscape
/// labels, but for the layers, with its source forced to display, under its
/// label. `None` where `svg` is no XML document.
pub fn extract_labeled_parts(svg: &str) -> (r: Option<PartMap>)
    ensures
        match xml_nodes(svg@) {
            Some(nodes) => r matches Some(p) && p.wf() && p@ == labeled_parts_of(nodes),
            None => r is None,
        },
{
    match parse_xml_nodes(svg) {
        Some(nodes) => Some(labeled_parts(&nodes)),
        None => None,
    }
}

} // verus!
