//! The document model that the registries are read from: a tree of named
//! elements with attributes, ordered element children and optional text.
use vstd::prelude::*;

use crate::text::str_eq;

verus! {

/// One element of the document tree.
pub struct XmlElement {
    /// The element's local name (e.g. "chapter", "tbody", "td").
    pub name: String,
    /// The element's attributes as (key, value) pairs; keys are distinct.
    pub attributes: Vec<(String, String)>,
    /// The element's child elements, in document order.
    pub children: Vec<XmlElement>,
    /// The element's own text, if it has any.
    pub text: Option<String>,
}

/// The mathematical value of an [`XmlElement`]; attributes are a map, as
/// their keys are distinct.
pub struct ElementView {
    pub name: Seq<char>,
    pub attributes: Map<Seq<char>, Seq<char>>,
    pub children: Seq<ElementView>,
    pub text: Option<Seq<char>>,
}

/// The map of (key, value) pairs; a later pair wins over an earlier one.
pub open spec fn attribute_map(pairs: Seq<(String, String)>) -> Map<Seq<char>, Seq<char>>
    decreases pairs.len(),
{
    if pairs.len() == 0 {
        Map::empty()
    } else {
        attribute_map(pairs.drop_last()).insert(pairs.last().0@, pairs.last().1@)
    }
}

/// The view of an element.
pub open spec fn element_view(e: XmlElement) -> ElementView
    decreases e, 0int,
{
    ElementView {
        name: e.name@,
        attributes: attribute_map(e.attributes@),
        children: children_view(e.children@, e.children@.len() as int),
        text: match e.text {
            Some(t) => Some(t@),
            None => None,
        },
    }
}

/// The views of the first `n` elements of `s`.
pub open spec fn children_view(s: Seq<XmlElement>, n: int) -> Seq<ElementView>
    decreases s, n,
{
    if n <= 0 || n > s.len() {
        Seq::empty()
    } else {
        children_view(s, n - 1).push(element_view(s[n - 1]))
    }
}

impl View for XmlElement {
    type V = ElementView;

    open spec fn view(&self) -> ElementView {
        element_view(*self)
    }
}

/// The views of the first `n` elements: one per element, in order.
pub proof fn lemma_children_view(s: Seq<XmlElement>, n: int)
    requires
        0 <= n <= s.len(),
    ensures
        children_view(s, n).len() == n,
        forall|i: int| 0 <= i < n ==> #[trigger] children_view(s, n)[i] == s[i]@,
    decreases n,
{
    if n > 0 {
        lemma_children_view(s, n - 1);
    }
}

/// The view of an element, field by field.
pub proof fn lemma_element_view(e: XmlElement)
    ensures
        e@.name == e.name@,
        e@.attributes == attribute_map(e.attributes@),
        e@.children.len() == e.children@.len(),
        forall|i: int| 0 <= i < e.children@.len() ==> #[trigger] e@.children[i] == e.children@[i]@,
{
    lemma_children_view(e.children@, e.children@.len() as int);
}

/// Index of the first element of `s` at or after `i` that is named `name`,
/// or `s.len()` when there is none.
pub open spec fn first_named_from(s: Seq<ElementView>, name: Seq<char>, i: int) -> int
    decreases s.len() - i,
{
    if i >= s.len() {
        s.len() as int
    } else if s[i].name == name {
        i
    } else {
        first_named_from(s, name, i + 1)
    }
}

/// The first element of `s` named `name`.
pub open spec fn first_named(s: Seq<ElementView>, name: Seq<char>) -> Option<ElementView> {
    let k = first_named_from(s, name, 0);
    if 0 <= k < s.len() {
        Some(s[k])
    } else {
        None
    }
}

/// Pairs past `i` that do not hold `key` leave its entry as the first `i` pairs give it.
proof fn lemma_attribute_map_prefix(pairs: Seq<(String, String)>, i: int, key: Seq<char>)
    requires
        0 <= i <= pairs.len(),
        forall|j: int| i <= j < pairs.len() ==> pairs[j].0@ != key,
    ensures
        attribute_map(pairs).contains_key(key) == attribute_map(pairs.subrange(0, i)).contains_key(
            key,
        ),
        attribute_map(pairs).contains_key(key) ==> attribute_map(pairs)[key] == attribute_map(
            pairs.subrange(0, i),
        )[key],
    decreases pairs.len(),
{
    if pairs.len() > i {
        lemma_attribute_map_prefix(pairs.drop_last(), i, key);
        assert(pairs.drop_last().subrange(0, i) =~= pairs.subrange(0, i));
    } else {
        assert(pairs.subrange(0, i) =~= pairs);
    }
}

impl XmlElement {
    /// An element named `name` with no attribute, child or text.
    pub fn new(name: &str) -> (r: XmlElement)
        ensures
            r@ == (ElementView {
                name: name@,
                attributes: Map::empty(),
                children: Seq::empty(),
                text: None,
            }),
    {
        let r = XmlElement {
            name: String::from_str(name),
            attributes: Vec::new(),
            children: Vec::new(),
            text: None,
        };
        proof {
            lemma_element_view(r);
        }
        assert(r@.children =~= Seq::<ElementView>::empty());
        r
    }

    /// The value of the attribute `key`, if the element has it.
    pub fn attribute(&self, key: &str) -> (r: Option<&String>)
        ensures
            match r {
                Some(v) => self@.attributes.contains_key(key@) && self@.attributes[key@] == v@,
                None => !self@.attributes.contains_key(key@),
            },
    {
        proof {
            lemma_element_view(*self);
        }
        let pairs = &self.attributes;
        let mut i: usize = pairs.len();
        while i > 0
            invariant
                pairs@ == self.attributes@,
                i <= pairs@.len(),
                forall|j: int| i <= j < pairs@.len() ==> pairs@[j].0@ != key@,
            decreases i,
        {
            let pair = &pairs[i - 1];
            if str_eq(pair.0.as_str(), key) {
                proof {
                    lemma_attribute_map_prefix(pairs@, i as int, key@);
                    assert(pairs@.subrange(0, i as int).drop_last() =~= pairs@.subrange(
                        0,
                        i - 1,
                    ));
                }
                return Some(&pair.1);
            }
            i -= 1;
        }
        proof {
            lemma_attribute_map_prefix(pairs@, 0, key@);
        }
        None
    }

    /// The first child element named `name`.
    pub fn first_child_named(&self, name: &str) -> (r: Option<&XmlElement>)
        ensures
            match r {
                Some(c) => first_named(self@.children, name@) == Some(c@),
                None => first_named(self@.children, name@) is None,
            },
    {
        proof {
            lemma_element_view(*self);
        }
        let n = self.children.len();
        let mut i: usize = 0;
        while i < n
            invariant
                n == self.children@.len(),
                n == self@.children.len(),
                i <= n,
                first_named_from(self@.children, name@, 0) == first_named_from(
                    self@.children,
                    name@,
                    i as int,
                ),
            decreases n - i,
        {
            proof {
                lemma_element_view(*self);
            }
            let child = &self.children[i];
            if str_eq(child.name.as_str(), name) {
                return Some(child);
            }
            i += 1;
        }
        None
    }
}

} // verus!
