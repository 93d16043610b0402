//! XML documents, read with the `roxmltree` crate into a flat list of
//! nodes in document order, each knowing its parent.
use vstd::prelude::*;

use crate::text::{ostr, trim};

verus! {

/// A node of an XML document.
#[derive(Debug)]
pub struct XmlNode {
    /// The node's position in the document.
    pub id: usize,
    /// The position of its parent, if any.
    pub parent: Option<usize>,
    /// Whether the node is an element.
    pub element: bool,
    /// The namespace of an element's name.
    pub ns: Option<String>,
    /// The local name of an element.
    pub name: String,
    /// The attributes of an element: namespace, local name and value.
    pub attrs: Vec<(Option<String>, String, String)>,
    /// The text of a text node, or of an element whose first child is text.
    pub text: Option<String>,
}

/// The content of a node.
pub struct NodeView {
    pub id: usize,
    pub parent: Option<usize>,
    pub element: bool,
    pub ns: Option<Seq<char>>,
    pub name: Seq<char>,
    pub attrs: Seq<(Option<Seq<char>>, Seq<char>, Seq<char>)>,
    pub text: Option<Seq<char>>,
}

impl View for XmlNode {
    type V = NodeView;

    open spec fn view(&self) -> NodeView {
        NodeView {
            id: self.id,
            parent: self.parent,
            element: self.element,
            ns: ostr(self.ns),
            name: self.name@,
            attrs: self.attrs@.map_values(
                |a: (Option<String>, String, String)| (ostr(a.0), a.1@, a.2@),
            ),
            text: ostr(self.text),
        }
    }
}

/// The contents of a list of nodes.
pub open spec fn nodes_view(v: Seq<XmlNode>) -> Seq<NodeView> {
    v.map_values(|n: XmlNode| n@)
}

/// The nodes of the XML document `text` in document order, or `None` when
/// the text is not a well-formed document.
pub uninterp spec fn xml_nodes(text: Seq<char>) -> Option<Seq<NodeView>>;

/// Parses an XML document (`roxmltree::Document::parse`) and lists its
/// nodes (`descendants`) with their positions, parents, names, attributes
/// and text; `None` when parsing fails.
#[verifier::external_body]
pub(crate) fn parse_xml(text: &str) -> (r: Option<Vec<XmlNode>>)
    ensures
        match r {
            Some(v) => xml_nodes(text@) == Some(nodes_view(v@)),
            None => xml_nodes(text@) is None,
        },
{
    let doc = match roxmltree::Document::parse(text) {
        Ok(d) => d,
        Err(_) => return None,
    };
    Some(doc.descendants().map(|n| XmlNode {
        id: n.id().get_usize(),
        parent: n.parent().map(|p| p.id().get_usize()),
        element: n.is_element(),
        ns: n.tag_name().namespace().map(String::from),
        name: n.tag_name().name().to_string(),
        attrs: n.attributes().map(|a| (a.namespace().map(String::from), a.name().to_string(), a.value().to_string())).collect(),
        text: n.text().map(String::from),
    }).collect())
}

/// Whether `n` is an element named `local` in the namespace `ns`.
pub open spec fn is_tag(n: NodeView, ns: Seq<char>, local: Seq<char>) -> bool {
    n.element && n.ns == Some(ns) && n.name == local
}

/// The element children of node `id`, in document order.
pub open spec fn children(ns: Seq<NodeView>, id: usize) -> Seq<NodeView>
    decreases ns.len(),
{
    if ns.len() == 0 {
        seq![]
    } else {
        children(ns.drop_last(), id) + if ns.last().element && ns.last().parent == Some(id) {
            seq![ns.last()]
        } else {
            seq![]
        }
    }
}

/// The first element of `cs` with the given name.
pub open spec fn first_tag(cs: Seq<NodeView>, ns: Seq<char>, local: Seq<char>) -> Option<NodeView>
    decreases cs.len(),
{
    if cs.len() == 0 {
        None
    } else if is_tag(cs[0], ns, local) {
        Some(cs[0])
    } else {
        first_tag(cs.drop_first(), ns, local)
    }
}

/// The trimmed text of the first child of `id` with the given name.
pub open spec fn child_text(nodes: Seq<NodeView>, id: usize, ns: Seq<char>, local: Seq<char>) -> Option<
    Seq<char>,
> {
    match first_tag(children(nodes, id), ns, local) {
        Some(c) => match c.text {
            Some(t) => Some(trim(t)),
            None => None,
        },
        None => None,
    }
}

/// The value of the attribute `name` without a namespace.
pub open spec fn attr_value(attrs: Seq<(Option<Seq<char>>, Seq<char>, Seq<char>)>, name: Seq<char>) -> Option<
    Seq<char>,
>
    decreases attrs.len(),
{
    if attrs.len() == 0 {
        None
    } else if attrs[0].0 is None && attrs[0].1 == name {
        Some(attrs[0].2)
    } else {
        attr_value(attrs.drop_first(), name)
    }
}

/// The element children of node `id`.
pub fn children_of(nodes: &Vec<XmlNode>, id: usize) -> (r: Vec<usize>)
    ensures
        forall|k: int| 0 <= k < r@.len() ==> (#[trigger] r@[k]) < nodes@.len(),
        r@.map_values(|k: usize| nodes_view(nodes@)[k as int]) == children(nodes_view(nodes@), id),
{
    let ghost nv = nodes_view(nodes@);
    let mut r: Vec<usize> = Vec::new();
    let mut i: usize = 0;
    while i < nodes.len()
        invariant
            i <= nodes.len(),
            nv == nodes_view(nodes@),
            forall|k: int| 0 <= k < r@.len() ==> (#[trigger] r@[k]) < i,
            r@.map_values(|k: usize| nv[k as int]) == children(nv.take(i as int), id),
        decreases nodes.len() - i,
    {
        assert(nv.take(i + 1).drop_last() == nv.take(i as int));
        assert(nv.take(i + 1).last() == nodes@[i as int]@);
        let ghost before = r@.map_values(|k: usize| nv[k as int]);
        if nodes[i].element && nodes[i].parent == Some(id) {
            r.push(i);
            assert(r@.map_values(|k: usize| nv[k as int]) =~= before.push(nv[i as int]));
        } else {
            assert(before + seq![] == before);
        }
        i = i + 1;
    }
    assert(nv.take(nodes.len() as int) == nv);
    r
}

/// Whether node `i` is an element named `local` in the namespace `ns`.
pub fn has_tag(n: &XmlNode, ns: &str, local: &str) -> (r: bool)
    ensures
        r == is_tag(n@, ns@, local@),
{
    if !n.element {
        return false;
    }
    let ns_ok = match &n.ns {
        Some(x) => crate::text::str_eq(ns, &crate::text::chars_of(x.as_str())),
        None => false,
    };
    ns_ok && crate::text::str_eq(local, &crate::text::chars_of(n.name.as_str()))
}

/// The trimmed text of the first child of node `id` with the given name.
pub fn find_text(nodes: &Vec<XmlNode>, id: usize, ns: &str, local: &str) -> (r: Option<String>)
    ensures
        ostr(r) == child_text(nodes_view(nodes@), id, ns@, local@),
{
    let cs = children_of(nodes, id);
    let ghost cv = cs@.map_values(|k: usize| nodes_view(nodes@)[k as int]);
    let mut i: usize = 0;
    assert(cv.skip(0) == cv);
    while i < cs.len()
        invariant
            i <= cs.len(),
            cv == cs@.map_values(|k: usize| nodes_view(nodes@)[k as int]),
            cv == children(nodes_view(nodes@), id),
            forall|k: int| 0 <= k < cs@.len() ==> (#[trigger] cs@[k]) < nodes@.len(),
            first_tag(cv, ns@, local@) == first_tag(cv.skip(i as int), ns@, local@),
        decreases cs.len() - i,
    {
        assert(cv.skip(i as int)[0] == nodes@[cs@[i as int] as int]@);
        assert(cv.skip(i as int).drop_first() == cv.skip(i + 1));
        let n = &nodes[cs[i]];
        if has_tag(n, ns, local) {
            return match &n.text {
                Some(t) => Some(crate::text::trim_str(t.as_str())),
                None => None,
            };
        }
        i = i + 1;
    }
    None
}

/// The value of the attribute `name` (without a namespace) of a node.
pub fn attribute(n: &XmlNode, name: &str) -> (r: Option<String>)
    ensures
        ostr(r) == attr_value(n@.attrs, name@),
{
    let want = crate::text::chars_of(name);
    let mut i: usize = 0;
    assert(n@.attrs.skip(0) == n@.attrs);
    while i < n.attrs.len()
        invariant
            i <= n.attrs.len(),
            want@ == name@,
            attr_value(n@.attrs, name@) == attr_value(n@.attrs.skip(i as int), name@),
        decreases n.attrs.len() - i,
    {
        assert(n@.attrs.skip(i as int)[0] == (
            ostr(n.attrs@[i as int].0),
            n.attrs@[i as int].1@,
            n.attrs@[i as int].2@,
        ));
        assert(n@.attrs.skip(i as int).drop_first() == n@.attrs.skip(i + 1));
        if n.attrs[i].0.is_none() && crate::text::str_eq(n.attrs[i].1.as_str(), &want) {
            return Some(n.attrs[i].2.clone());
        }
        i = i + 1;
    }
    None
}

/// The first element of a document, in document order: the root element.
pub open spec fn root_index(nodes: Seq<NodeView>) -> Option<int> {
    if exists|i: int| 0 <= i < nodes.len() && nodes[i].element {
        Some(
            choose|i: int|
                0 <= i < nodes.len() && nodes[i].element && forall|j: int|
                    0 <= j < i ==> !nodes[j].element,
        )
    } else {
        None
    }
}

/// Finds the root element.
pub fn root_element(nodes: &Vec<XmlNode>) -> (r: Option<usize>)
    ensures
        match r {
            Some(i) => i < nodes.len() && root_index(nodes_view(nodes@)) == Some(i as int),
            None => root_index(nodes_view(nodes@)) is None,
        },
{
    let ghost nv = nodes_view(nodes@);
    let mut i: usize = 0;
    while i < nodes.len()
        invariant
            i <= nodes.len(),
            nv == nodes_view(nodes@),
            forall|j: int| 0 <= j < i ==> !(#[trigger] nv[j]).element,
        decreases nodes.len() - i,
    {
        if nodes[i].element {
            proof {
                assert(nv[i as int].element);
                let w = choose|w: int|
                    0 <= w < nv.len() && nv[w].element && forall|j: int| 0 <= j < w ==> !nv[j].element;
                if w < i {
                    assert(!nv[w].element);
                } else if w > i {
                    assert(!nv[i as int].element);
                }
            }
            return Some(i);
        }
        i = i + 1;
    }
    None
}

} // verus!
