//! The XML of a server's responses, as far as the client reads it: elements
//! with their names, their text and their child elements.

use crate::error::CaldavError;
use crate::error::CaldavResult;
use crate::error::ErrorView;
use vstd::prelude::*;

verus! {

/// An element as `minidom` holds it. What is in it is read through
/// `element_tree`.
#[verifier::external_type_specification]
#[verifier::external_body]
pub struct ExElement(minidom::Element);

/// One element: its name without a prefix, the text directly inside it, and
/// its child elements in their order.
#[derive(Debug)]
pub struct XmlElement {
    pub name: String,
    pub text: String,
    pub children: Vec<XmlElement>,
}

/// The root element of the document `text`; `None` where `text` is not a
/// well-formed document.
pub uninterp spec fn parsed_xml(text: Seq<char>) -> Option<XmlElement>;

/// What a parsed element holds.
pub uninterp spec fn element_tree(element: minidom::Element) -> XmlElement;

/// `str::parse` for `minidom::Element`. Claimed: the same text is always
/// parsed alike, into the same element or into an error.
#[verifier::external_body]
fn read_element(text: &str) -> (r: Result<minidom::Element, minidom::Error>)
    ensures
        r is Ok <==> parsed_xml(text@) is Some,
        r matches Ok(element) ==> parsed_xml(text@) == Some(element_tree(element)),
{
    text.parse()
}

/// `minidom::Element::name`, `text` and `children`, the last one element by
/// element: the tree is copied as it stands.
#[verifier::external_body]
fn element_of(element: &minidom::Element) -> (r: XmlElement)
    ensures
        r == element_tree(*element),
{
    XmlElement {
        name: element.name().to_owned(),
        text: element.text(),
        children: element.children().map(element_of).collect(),
    }
}

/// Reads a document.
pub fn parse_xml(text: &str) -> (r: CaldavResult<XmlElement>)
    ensures
        match parsed_xml(text@) {
            Some(root) => r matches Ok(element) && element == root,
            None => r matches Err(e) && e@ == ErrorView::Minidom,
        },
{
    match read_element(text) {
        Ok(element) => Ok(element_of(&element)),
        Err(e) => Err(CaldavError::Minidom(e)),
    }
}

/// The first element named `tag` in `root`, `root` itself included, in the
/// order of the document.
pub open spec fn first_element(root: XmlElement, tag: Seq<char>) -> Option<XmlElement>
    decreases root, 1int, 0int,
{
    if root.name@ == tag {
        Some(root)
    } else {
        first_among(root, tag, 0)
    }
}

/// The first element named `tag` in the children of `parent` from index
/// `from` on, or below them.
pub open spec fn first_among(parent: XmlElement, tag: Seq<char>, from: int) -> Option<XmlElement>
    decreases parent, 0int, parent.children@.len() - from,
    when from >= 0
{
    if from >= parent.children@.len() {
        None
    } else {
        match first_element(parent.children@[from], tag) {
            Some(found) => Some(found),
            None => first_among(parent, tag, from + 1),
        }
    }
}

/// The elements named `tag` below `root`, in the order of the document. What
/// lies inside an element of that name is not looked at.
pub open spec fn all_elements(root: XmlElement, tag: Seq<char>) -> Seq<XmlElement>
    decreases root, 1int, 0int,
{
    all_among(root, tag, 0)
}

/// The elements named `tag` among the children of `parent` from index `from`
/// on, or below them.
pub open spec fn all_among(parent: XmlElement, tag: Seq<char>, from: int) -> Seq<XmlElement>
    decreases parent, 0int, parent.children@.len() - from,
    when from >= 0
{
    if from >= parent.children@.len() {
        Seq::empty()
    } else {
        let child = parent.children@[from];
        let here = if child.name@ == tag {
            seq![child]
        } else {
            all_elements(child, tag)
        };
        here + all_among(parent, tag, from + 1)
    }
}

/// Searches `root` and what lies below it for the first element named `tag`.
pub fn find_element<'a>(root: &'a XmlElement, tag: String) -> (r: Option<&'a XmlElement>)
    ensures
        r is Some <==> first_element(*root, tag@) is Some,
        r matches Some(found) ==> first_element(*root, tag@) == Some(*found),
    decreases root,
{
    if root.name == tag {
        return Some(root);
    }
    let mut i: usize = 0;
    while i < root.children.len()
        invariant
            i <= root.children@.len(),
            root.name@ != tag@,
            first_element(*root, tag@) == first_among(*root, tag@, i as int),
        decreases root.children@.len() - i,
    {
        let found = find_element(&root.children[i], tag.clone());
        if found.is_some() {
            return found;
        }
        i = i + 1;
    }
    None
}

/// Searches below `root` for the elements named `tag`.
pub fn find_elements<'a>(root: &'a XmlElement, tag: String) -> (r: Vec<&'a XmlElement>)
    ensures
        r@.len() == all_elements(*root, tag@).len(),
        forall|k: int| 0 <= k < r@.len() ==> *r@[k] == all_elements(*root, tag@)[k],
    decreases root,
{
    let mut elements: Vec<&XmlElement> = Vec::new();
    let ghost mut collected: Seq<XmlElement> = Seq::empty();
    let mut i: usize = 0;
    while i < root.children.len()
        invariant
            i <= root.children@.len(),
            elements@.len() == collected.len(),
            forall|k: int| 0 <= k < elements@.len() ==> *elements@[k] == collected[k],
            collected + all_among(*root, tag@, i as int) == all_elements(*root, tag@),
        decreases root.children@.len() - i,
    {
        let child = &root.children[i];
        let ghost rest = all_among(*root, tag@, i + 1);
        let ghost before = collected;
        if child.name == tag {
            elements.push(child);
            proof {
                collected = before + seq![*child];
            }
        } else {
            let mut below = find_elements(child, tag.clone());
            elements.append(&mut below);
            proof {
                collected = before + all_elements(*child, tag@);
            }
        }
        assert(collected + rest =~= before + all_among(*root, tag@, i as int));
        i = i + 1;
    }
    elements
}

} // verus!
