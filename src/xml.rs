//! Reading XML text into the document model, through the xmltree crate.
use vstd::prelude::*;

use crate::data_element::opt_view;
use crate::document::{attribute_map, lemma_element_view, ElementView, XmlElement};
use crate::error::{ErrorView, ParseError};
use crate::markup::{nesting_within_limit, within_nesting_limit};

verus! {

#[verifier::external_type_specification]
#[verifier::external_body]
pub struct ExElement(xmltree::Element);

/// How many levels below the root the model keeps: the registry tables are
/// read at book / chapter / table / tbody / tr / td / para / emphasis.
pub const IMPORT_DEPTH: usize = 7;

/// What an xmltree element holds, as plain values.
pub struct XmlTreeView {
    /// The local name.
    pub name: Seq<char>,
    /// The attributes, by local name.
    pub attributes: Map<Seq<char>, Seq<char>>,
    /// The child nodes, in document order.
    pub nodes: Seq<XmlNodeView>,
    /// The text and CDATA children joined, if there are any.
    pub text: Option<Seq<char>>,
}

/// A child node of an xmltree element: an element, or text, a comment,
/// CDATA or a processing instruction.
pub enum XmlNodeView {
    Element(XmlTreeView),
    Other,
}

/// What the xmltree element `e` holds.
pub uninterp spec fn xml_view(e: xmltree::Element) -> XmlTreeView;

/// What xmltree's parse makes of `text`: its root element, or `None` when the
/// text is not well-formed XML.
pub uninterp spec fn parsed_document(text: Seq<char>) -> Option<XmlTreeView>;

/// The model of `t`: its element children, to `depth` levels.
pub open spec fn imported(t: XmlTreeView, depth: nat) -> ElementView
    decreases depth, 0int,
{
    ElementView {
        name: t.name,
        attributes: t.attributes,
        children: if depth == 0 {
            Seq::empty()
        } else {
            imported_elements(t.nodes, t.nodes.len() as int, (depth - 1) as nat)
        },
        text: t.text,
    }
}

/// The models of the elements among the first `n` of `nodes`, to `depth` levels.
pub open spec fn imported_elements(nodes: Seq<XmlNodeView>, n: int, depth: nat) -> Seq<
    ElementView,
>
    decreases depth, n,
{
    if n <= 0 || n > nodes.len() {
        Seq::empty()
    } else {
        let rest = imported_elements(nodes, n - 1, depth);
        match nodes[n - 1] {
            XmlNodeView::Element(c) => rest.push(imported(c, depth)),
            XmlNodeView::Other => rest,
        }
    }
}

/// The model of the document `text`, or why there is none.
pub open spec fn document_model(text: Seq<char>) -> Result<ElementView, ErrorView> {
    if !nesting_within_limit(text) {
        Err(ErrorView::NestingTooDeep)
    } else {
        match parsed_document(text) {
            None => Err(ErrorView::MalformedDocument),
            Some(t) => Ok(imported(t, IMPORT_DEPTH as nat)),
        }
    }
}

/// Relies on xmltree::Element::parse: the root element of the text, or an
/// error when the text is not well-formed XML. The parse recurses once per
/// level of nesting, so the text must be shallow enough.
#[verifier::external_body]
fn parse_root(text: &str) -> (r: Result<xmltree::Element, String>)
    requires
        nesting_within_limit(text@),
    ensures
        match r {
            Ok(e) => parsed_document(text@) == Some(xml_view(e)),
            Err(_) => parsed_document(text@) is None,
        },
{
    xmltree::Element::parse(text.as_bytes()).map_err(|e| e.to_string())
}

/// Relies on the `name` field of xmltree::Element: the element's local name.
#[verifier::external_body]
fn element_name(e: &xmltree::Element) -> (r: String)
    ensures
        r@ == xml_view(*e).name,
{
    e.name.clone()
}

/// Relies on the `attributes` map of xmltree::Element: its (key, value)
/// pairs, each key once.
#[verifier::external_body]
fn element_attributes(e: &xmltree::Element) -> (r: Vec<(String, String)>)
    ensures
        attribute_map(r@) == xml_view(*e).attributes,
{
    e.attributes.iter().map(|(k, v)| (k.clone(), v.clone())).collect()
}

/// Relies on xmltree::Element::get_text: the element's text and CDATA
/// children, joined, if it has any.
#[verifier::external_body]
fn element_text(e: &xmltree::Element) -> (r: Option<String>)
    ensures
        opt_view(r) == xml_view(*e).text,
{
    e.get_text().map(|t| t.into_owned())
}

/// Relies on the `children` vector of xmltree::Element: how many child nodes
/// the element has.
#[verifier::external_body]
fn node_count(e: &xmltree::Element) -> (r: usize)
    ensures
        r == xml_view(*e).nodes.len(),
{
    e.children.len()
}

/// Relies on xmltree::XMLNode::as_element: the child node at `i`, when there
/// is one and it is an element.
#[verifier::external_body]
fn child_element<'a>(e: &'a xmltree::Element, i: usize) -> (r: Option<&'a xmltree::Element>)
    ensures
        match r {
            Some(c) => i < xml_view(*e).nodes.len() && xml_view(*e).nodes[i as int]
                == XmlNodeView::Element(xml_view(*c)),
            None => i >= xml_view(*e).nodes.len() || xml_view(*e).nodes[i as int] is Other,
        },
{
    e.children.get(i).and_then(|n| n.as_element())
}

/// Copies `e` into the document model, keeping `depth` levels of child elements.
fn import_element(e: &xmltree::Element, depth: usize) -> (r: XmlElement)
    ensures
        r@ == imported(xml_view(*e), depth as nat),
    decreases depth,
{
    let ghost t = xml_view(*e);
    let mut children: Vec<XmlElement> = Vec::new();
    if depth > 0 {
        let n = node_count(e);
        let mut i: usize = 0;
        while i < n
            invariant
                t == xml_view(*e),
                n == t.nodes.len(),
                i <= n,
                depth > 0,
                children@.len() == imported_elements(t.nodes, i as int, (depth - 1) as nat).len(),
                forall|j: int|
                    0 <= j < children@.len() ==> #[trigger] children@[j]@ == imported_elements(
                        t.nodes,
                        i as int,
                        (depth - 1) as nat,
                    )[j],
            decreases n - i,
        {
            let ghost before = children@;
            if let Some(c) = child_element(e, i) {
                children.push(import_element(c, depth - 1));
                assert forall|j: int| 0 <= j < children@.len() implies #[trigger] children@[j]@
                    == imported_elements(t.nodes, i + 1, (depth - 1) as nat)[j] by {
                    if j < before.len() {
                        assert(children@[j] == before[j]);
                    }
                }
            }
            i += 1;
        }
    }
    let r = XmlElement {
        name: element_name(e),
        attributes: element_attributes(e),
        children,
        text: element_text(e),
    };
    proof {
        lemma_element_view(r);
    }
    assert(r@.children =~= imported(t, depth as nat).children);
    r
}

/// Parses `text` into the document model, down to [`IMPORT_DEPTH`] levels
/// below the root element. A text nested deeper than the parser may go is
/// refused before it is parsed.
pub fn parse_document(text: &str) -> (r: Result<XmlElement, ParseError>)
    ensures
        match r {
            Ok(root) => document_model(text@) == Ok::<ElementView, ErrorView>(root@),
            Err(e) => document_model(text@) == Err::<ElementView, ErrorView>(e@),
        },
{
    if !within_nesting_limit(text) {
        return Err(ParseError::NestingTooDeep);
    }
    match parse_root(text) {
        Ok(root) => Ok(import_element(&root, IMPORT_DEPTH)),
        Err(message) => Err(ParseError::MalformedDocument(message)),
    }
}

} // verus!
