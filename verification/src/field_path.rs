//! Where in an argument a helper is reading.
//!
//! A path names the offending field of a refusal, such as
//! `detections.boxes`, `detections[3].segmentation` or
//! `detections[3].rles[7]`. It is rendered only where an error needs it.

use crate::text::{nat_text, usize_text};
use vstd::prelude::*;

verus! {

/// A path into an argument.
#[derive(Clone, Copy, Debug)]
pub struct FieldPath<'a> {
    /// The argument that the path starts at.
    pub root: &'a str,
    /// The position within a sequence argument.
    pub ann: Option<usize>,
    /// The field with its leading dot, or nothing for the element itself.
    pub name: &'a str,
    /// The position within a sequence-valued field.
    pub item: Option<usize>,
}

/// An index in brackets, or nothing.
pub open spec fn index_text(index: Option<usize>) -> Seq<char> {
    match index {
        None => Seq::empty(),
        Some(i) => "["@ + nat_text(i as nat) + "]"@,
    }
}

/// The rendering of a path made of its four parts.
pub open spec fn path_text(
    root: Seq<char>,
    ann: Option<usize>,
    name: Seq<char>,
    item: Option<usize>,
) -> Seq<char> {
    root + index_text(ann) + name + index_text(item)
}

/// An index in brackets, or nothing.
fn index(i: Option<usize>) -> (s: String)
    ensures
        s@ == index_text(i),
{
    match i {
        None => String::new(),
        Some(i) => {
            let mut s = String::from_str("[");
            s.append(usize_text(i).as_str());
            s.append("]");
            s
        },
    }
}

impl<'a> FieldPath<'a> {
    /// The rendering of this path.
    pub open spec fn text(self) -> Seq<char> {
        path_text(self.root@, self.ann, self.name@, self.item)
    }

    /// A path into the `detections` argument.
    pub fn new(ann: Option<usize>, name: &'a str) -> (p: FieldPath<'a>)
        ensures
            p.text() == path_text("detections"@, ann, name@, None),
            p.root@ == "detections"@ && p.ann == ann && p.name == name && p.item is None,
    {
        FieldPath::rooted("detections", ann, name)
    }

    /// A path into the argument named `root`.
    pub fn rooted(root: &'a str, ann: Option<usize>, name: &'a str) -> (p: FieldPath<'a>)
        ensures
            p == (FieldPath { root, ann, name, item: None }),
    {
        FieldPath { root, ann, name, item: None }
    }

    /// The same path, narrowed to one item of a sequence-valued field.
    pub fn item(self, item: usize) -> (p: FieldPath<'a>)
        ensures
            p == (FieldPath { item: Some(item), ..self }),
    {
        FieldPath { root: self.root, ann: self.ann, name: self.name, item: Some(item) }
    }

    /// Render this path.
    pub fn to_text(&self) -> (s: String)
        ensures
            s@ == self.text(),
    {
        let mut s = String::from_str(self.root);
        s.append(index(self.ann).as_str());
        s.append(self.name);
        s.append(index(self.item).as_str());
        s
    }
}

/// A path is its four parts one after the other: the argument, the place in
/// it in brackets, the field, and the place in that in brackets. A place that
/// is not given is not written.
pub proof fn law_paths_name_their_parts(p: FieldPath<'static>, i: usize, j: usize)
    ensures
        (FieldPath { ann: None, item: None, ..p }).text() == p.root@ + p.name@,
        (FieldPath { ann: Some(i), item: None, ..p }).text() == p.root@ + seq!['['] + nat_text(
            i as nat,
        ) + seq![']'] + p.name@,
        (FieldPath { ann: None, item: Some(j), ..p }).text() == p.root@ + p.name@ + seq!['[']
            + nat_text(j as nat) + seq![']'],
        (FieldPath { ann: Some(i), item: Some(j), ..p }).text() == p.root@ + seq!['['] + nat_text(
            i as nat,
        ) + seq![']'] + p.name@ + seq!['['] + nat_text(j as nat) + seq![']'],
{
    reveal_strlit("[");
    reveal_strlit("]");
    assert("["@ =~= seq!['[']);
    assert("]"@ =~= seq![']']);
    assert((FieldPath { ann: None, item: None, ..p }).text() =~= p.root@ + p.name@);
    assert((FieldPath { ann: Some(i), item: None, ..p }).text() =~= p.root@ + seq!['['] + nat_text(
        i as nat,
    ) + seq![']'] + p.name@);
    assert((FieldPath { ann: None, item: Some(j), ..p }).text() =~= p.root@ + p.name@ + seq!['[']
        + nat_text(j as nat) + seq![']']);
    assert((FieldPath { ann: Some(i), item: Some(j), ..p }).text() =~= p.root@ + seq!['[']
        + nat_text(i as nat) + seq![']'] + p.name@ + seq!['['] + nat_text(j as nat) + seq![']']);
}

} // verus!
