//! Paths: the names that lead to an item.

use vstd::prelude::*;

use smallvec::SmallVec;

use crate::name::Name;
use crate::name::NameModel;

verus! {

/// One step of a path.
#[derive(Debug, PartialEq, Eq)]
pub struct PathSegment {
    name: Name,
}

impl View for PathSegment {
    type V = NameModel;

    closed spec fn view(&self) -> NameModel {
        self.name@
    }
}

impl PathSegment {
    /// The name of this step.
    pub fn name(&self) -> (name: &Name)
        ensures
            name@ == self@,
    {
        &self.name
    }
}

/// A path: one segment or more, kept in a small vector.
#[verifier::external_body]
#[derive(Debug, PartialEq, Eq)]
pub struct Path {
    segments: SmallVec<[PathSegment; 1]>,
}

/// The segments that the small vector of a path holds, in their order.
pub uninterp spec fn path_segments(path: Path) -> Seq<PathSegment>;

impl View for Path {
    type V = Seq<NameModel>;

    open spec fn view(&self) -> Seq<NameModel> {
        Seq::new(path_segments(*self).len(), |i: int| path_segments(*self)[i]@)
    }
}

/// `SmallVec::from_buf`, given an array of one segment: a vector that holds
/// just that segment.
#[verifier::external_body]
fn path_of_one(segment: PathSegment) -> (path: Path)
    ensures
        path_segments(path) == seq![segment],
{
    Path { segments: SmallVec::from_buf([segment]) }
}

/// `SmallVec::len`: the number of segments.
#[verifier::external_body]
fn path_len(path: &Path) -> (len: usize)
    ensures
        len == path_segments(*path).len(),
{
    path.segments.len()
}

/// Indexing a `SmallVec`: the segment at a position below its length.
#[verifier::external_body]
fn path_segment(path: &Path, index: usize) -> (segment: &PathSegment)
    requires
        index < path_segments(*path).len(),
    ensures
        *segment == path_segments(*path)[index as int],
{
    &path.segments[index]
}

impl Path {
    /// The path of one segment, `name`.
    pub fn single(name: Name) -> (path: Path)
        ensures
            path@ == seq![name@],
    {
        let path = path_of_one(PathSegment { name });
        path
    }

    /// The number of segments.
    pub fn len(&self) -> (len: usize)
        ensures
            len == self@.len(),
    {
        path_len(self)
    }

    /// The name of the segment at `index`; `None` where the path is shorter.
    pub fn segment(&self, index: usize) -> (name: Option<&Name>)
        ensures
            match name {
                Some(found) => index < self@.len() && found@ == self@[index as int],
                None => index >= self@.len(),
            },
    {
        if index < path_len(self) {
            Some(path_segment(self, index).name())
        } else {
            None
        }
    }
}

} // verus!
