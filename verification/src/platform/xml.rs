//! A parsed XML document as plain values: every node in document order,
//! each with its tag, its attributes, and where it sits in the tree.
//!
//! Reading the text is `roxmltree`'s work. What a platform makes of the tree
//! is this crate's, and is stated over these values.
use vstd::prelude::*;

verus! {

/// One node of a parsed document.
///
/// Nodes are numbered by their place in document order, which is the order a
/// depth-first walk from the root meets them; `parent` and `children` hold
/// those numbers.
#[derive(Debug)]
pub struct XmlNode {
    /// Whether this is an element, as opposed to the root, text, a comment or
    /// a processing instruction.
    pub element: bool,
    /// The element's local name; empty for anything else.
    pub tag: String,
    /// The element's attributes as local name and value, in document order.
    pub attributes: Vec<(String, String)>,
    /// The node this one sits in, for all but the root.
    pub parent: Option<usize>,
    /// The nodes directly inside this one, in document order.
    pub children: Vec<usize>,
}

/// A node as plain values.
pub ghost struct XmlNodeView {
    pub element: bool,
    pub tag: Seq<char>,
    pub attributes: Seq<(Seq<char>, Seq<char>)>,
    pub parent: Option<usize>,
    pub children: Seq<usize>,
}

/// The characters of each name and value.
pub open spec fn pairs_view(v: Seq<(String, String)>) -> Seq<(Seq<char>, Seq<char>)> {
    v.map_values(|p: (String, String)| (p.0@, p.1@))
}

impl View for XmlNode {
    type V = XmlNodeView;

    open spec fn view(&self) -> XmlNodeView {
        XmlNodeView {
            element: self.element,
            tag: self.tag@,
            attributes: pairs_view(self.attributes@),
            parent: self.parent,
            children: self.children@,
        }
    }
}

/// Every node of a document as plain values.
pub open spec fn nodes_view(v: Seq<XmlNode>) -> Seq<XmlNodeView> {
    v.map_values(|n: XmlNode| n@)
}

/// What `roxmltree::Document::parse` makes of a text: its nodes in document
/// order, or what it objected to.
pub uninterp spec fn xml_document(raw: Seq<char>) -> Result<Seq<XmlNodeView>, Seq<char>>;

/// Parse `raw` with `roxmltree::Document::parse`, and hand every node of the
/// result back as plain values, numbered as `roxmltree` numbers them; or the
/// parser's own description of what is wrong.
#[verifier::external_body]
pub(crate) fn read_document(raw: &str) -> (r: Result<Vec<XmlNode>, String>)
    ensures
        match r {
            Ok(nodes) => xml_document(raw@) == Ok::<Seq<XmlNodeView>, Seq<char>>(nodes_view(nodes@)),
            Err(e) => xml_document(raw@) == Err::<Seq<XmlNodeView>, Seq<char>>(e@),
        },
{
    let document = roxmltree::Document::parse(raw).map_err(|error| error.to_string())?;
    Ok(document.descendants().map(|node| XmlNode {
        element: node.is_element(),
        tag: node.tag_name().name().to_string(),
        attributes: node.attributes().map(|a| (a.name().to_string(), a.value().to_string())).collect(),
        parent: node.parent().map(|up| up.id().get_usize()),
        children: node.children().map(|child| child.id().get_usize()).collect(),
    }).collect())
}

/// The value of the first attribute called `name`.
pub open spec fn attr_in(attributes: Seq<(Seq<char>, Seq<char>)>, name: Seq<char>) -> Option<Seq<char>>
    decreases attributes.len(),
{
    if attributes.len() == 0 {
        None
    } else if attributes[0].0 == name {
        Some(attributes[0].1)
    } else {
        attr_in(attributes.drop_first(), name)
    }
}

/// The value of a node's attribute, as `roxmltree::Node::attribute` finds it.
pub open spec fn attr(node: XmlNodeView, name: Seq<char>) -> Option<Seq<char>> {
    attr_in(node.attributes, name)
}

/// Whether a node's attribute `name` is exactly `value`.
pub open spec fn says(node: XmlNodeView, name: Seq<char>, value: Seq<char>) -> bool {
    attr(node, name) == Some(value)
}

impl XmlNode {
    /// The value of the first attribute called `name`.
    pub fn attribute(&self, name: &str) -> (r: Option<&String>)
        ensures
            match r {
                Some(v) => attr(self@, name@) == Some(v@),
                None => attr(self@, name@) is None,
            },
    {
        let mut i: usize = 0;
        assert(pairs_view(self.attributes@).skip(0) =~= pairs_view(self.attributes@));
        while i < self.attributes.len()
            invariant
                i <= self.attributes@.len(),
                attr(self@, name@) == attr_in(pairs_view(self.attributes@).skip(i as int), name@),
            decreases self.attributes@.len() - i,
        {
            let ghost rest = pairs_view(self.attributes@).skip(i as int);
            assert(rest[0] == (self.attributes@[i as int].0@, self.attributes@[i as int].1@));
            if crate::text::same_text(self.attributes[i].0.as_str(), name) {
                return Some(&self.attributes[i].1);
            }
            assert(rest.drop_first() =~= pairs_view(self.attributes@).skip(i + 1));
            i = i + 1;
        }
        None
    }

    /// Whether the attribute `name` is exactly `value`.
    pub fn says(&self, name: &str, value: &str) -> (r: bool)
        ensures
            r == says(self@, name@, value@),
    {
        match self.attribute(name) {
            Some(v) => crate::text::same_text(v.as_str(), value),
            None => false,
        }
    }
}

} // verus!
