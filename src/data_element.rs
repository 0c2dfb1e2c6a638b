//! Data elements: the rows of the data-element style registries.
use vstd::prelude::*;

use crate::text::{is_range_tag, is_range_tag_text};

verus! {

/// A unit of information as defined by a single entry of a data-element
/// style registry.
#[derive(Clone, Debug, Default, PartialEq, Eq, Hash)]
pub struct DataElement {
    /// The tag in the form "(gggg,eeee)"; a half may hold the wildcard `x`
    /// (e.g. "(1000,xxx0)").
    pub tag: String,
    /// The human-readable name (e.g. "Specific Character Set"); may be empty.
    pub name: String,
    /// The name as one word, with a zero-width space between its words
    /// (e.g. "Length\u{200b}To\u{200b}End"); may be empty.
    pub keyword: String,
    /// The Value Representation as two upper-case letters (e.g. "TM"); empty
    /// where the registry refers to a note instead.
    pub vr: String,
    /// The Value Multiplicity as a number or range (e.g. "2-n").
    pub vm: String,
    /// A comment (e.g. "RET" for retired elements), where the row has one.
    pub comment: Option<String>,
}

/// The mathematical value of a [`DataElement`].
pub struct DataElementView {
    pub tag: Seq<char>,
    pub name: Seq<char>,
    pub keyword: Seq<char>,
    pub vr: Seq<char>,
    pub vm: Seq<char>,
    pub comment: Option<Seq<char>>,
}

/// The view of an optional text.
pub open spec fn opt_view(s: Option<String>) -> Option<Seq<char>> {
    match s {
        Some(t) => Some(t@),
        None => None,
    }
}

impl View for DataElement {
    type V = DataElementView;

    open spec fn view(&self) -> DataElementView {
        DataElementView {
            tag: self.tag@,
            name: self.name@,
            keyword: self.keyword@,
            vr: self.vr@,
            vm: self.vm@,
            comment: opt_view(self.comment),
        }
    }
}

/// The views of a sequence of data elements.
pub open spec fn element_views(s: Seq<DataElement>) -> Seq<DataElementView> {
    s.map_values(|d: DataElement| d@)
}

/// True when the element names a single tag and has a keyword: the elements
/// for which an identifier can be generated.
pub open spec fn is_concrete(d: DataElementView) -> bool {
    !is_range_tag_text(d.tag) && d.keyword.len() > 0
}

/// The concrete elements of `s`, in their order.
pub open spec fn concrete_views(s: Seq<DataElementView>) -> Seq<DataElementView>
    decreases s.len(),
{
    if s.len() == 0 {
        s
    } else if is_concrete(s.last()) {
        concrete_views(s.drop_last()).push(s.last())
    } else {
        concrete_views(s.drop_last())
    }
}

/// A copy of `d`.
fn copy_element(d: &DataElement) -> (r: DataElement)
    ensures
        r@ == d@,
{
    DataElement {
        tag: d.tag.clone(),
        name: d.name.clone(),
        keyword: d.keyword.clone(),
        vr: d.vr.clone(),
        vm: d.vm.clone(),
        comment: match &d.comment {
            Some(c) => Some(c.clone()),
            None => None,
        },
    }
}

impl DataElement {
    /// An element whose texts are all empty and which has no comment.
    pub fn new() -> (r: DataElement)
        ensures
            r@ == (DataElementView {
                tag: Seq::empty(),
                name: Seq::empty(),
                keyword: Seq::empty(),
                vr: Seq::empty(),
                vm: Seq::empty(),
                comment: None,
            }),
    {
        DataElement {
            tag: String::new(),
            name: String::new(),
            keyword: String::new(),
            vr: String::new(),
            vm: String::new(),
            comment: None,
        }
    }

    /// True when the element names a single tag and has a keyword.
    pub fn is_concrete(&self) -> (r: bool)
        ensures
            r == is_concrete(self@),
    {
        !is_range_tag(self.tag.as_str()) && self.keyword.unicode_len() > 0
    }

    /// The element as one line of text:
    /// "Tag: t, Name: n, Keyword: k, VR: v, VM: m, Comment: c", with an empty
    /// comment where there is none.
    pub fn to_display_string(&self) -> (r: String)
        ensures
            r@ == "Tag: "@ + self.tag@ + ", Name: "@ + self.name@ + ", Keyword: "@ + self.keyword@
                + ", VR: "@ + self.vr@ + ", VM: "@ + self.vm@ + ", Comment: "@ + match self.comment {
                Some(c) => c@,
                None => Seq::<char>::empty(),
            },
    {
        let mut out = String::from_str("Tag: ");
        out.append(self.tag.as_str());
        out.append(", Name: ");
        out.append(self.name.as_str());
        out.append(", Keyword: ");
        out.append(self.keyword.as_str());
        out.append(", VR: ");
        out.append(self.vr.as_str());
        out.append(", VM: ");
        out.append(self.vm.as_str());
        out.append(", Comment: ");
        match &self.comment {
            Some(c) => out.append(c.as_str()),
            None => {},
        }
        proof {
            if self.comment is None {
                assert(out@ =~= out@ + Seq::<char>::empty());
            }
        }
        out
    }
}

/// The concrete elements of `elements`, in their order: those whose tag is
/// no range and whose keyword is not empty.
pub fn concrete_elements(elements: &Vec<DataElement>) -> (r: Vec<DataElement>)
    ensures
        element_views(r@) == concrete_views(element_views(elements@)),
{
    let n = elements.len();
    let mut out: Vec<DataElement> = Vec::new();
    let mut i: usize = 0;
    while i < n
        invariant
            n == elements@.len(),
            i <= n,
            element_views(out@) == concrete_views(element_views(elements@.subrange(0, i as int))),
        decreases n - i,
    {
        let d = &elements[i];
        let ghost prefix = elements@.subrange(0, i + 1);
        assert(element_views(prefix).drop_last() =~= element_views(
            elements@.subrange(0, i as int),
        ));
        assert(element_views(prefix).last() == d@);
        if d.is_concrete() {
            out.push(copy_element(d));
            assert(element_views(out@) =~= concrete_views(element_views(prefix)));
        }
        i += 1;
    }
    assert(elements@.subrange(0, n as int) =~= elements@);
    out
}

} // verus!
