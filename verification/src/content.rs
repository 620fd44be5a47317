//! Contents of a shared space and their paths.

use vstd::prelude::*;
use crate::types::{ContentId, ContentType, RevisionId};
use crate::path::spec_join;

verus! {

/// A content of the shared space as the synchronisation knows it.
#[derive(Debug)]
pub struct Content {
    id: ContentId,
    revision_id: RevisionId,
    file_name: String,
    parent_id: Option<ContentId>,
    type_: ContentType,
}

/// Mathematical value of a [`Content`].
pub struct ContentView {
    pub id: ContentId,
    pub revision_id: RevisionId,
    pub file_name: Seq<char>,
    pub parent_id: Option<ContentId>,
    pub type_: ContentType,
}

impl View for Content {
    type V = ContentView;

    closed spec fn view(&self) -> ContentView {
        ContentView {
            id: self.id,
            revision_id: self.revision_id,
            file_name: self.file_name@,
            parent_id: self.parent_id,
            type_: self.type_,
        }
    }
}

impl Content {
    /// A content with the given identity, revision, name, parent and type.
    pub fn new(
        id: ContentId,
        revision_id: RevisionId,
        file_name: String,
        parent_id: Option<ContentId>,
        type_: ContentType,
    ) -> (r: Content)
        ensures
            r@ == (ContentView { id, revision_id, file_name: file_name@, parent_id, type_ }),
    {
        Content { id, revision_id, file_name, parent_id, type_ }
    }

    pub fn id(&self) -> (r: ContentId)
        ensures
            r == self@.id,
    {
        self.id
    }

    pub fn revision_id(&self) -> (r: RevisionId)
        ensures
            r == self@.revision_id,
    {
        self.revision_id
    }

    pub fn file_name(&self) -> (r: &String)
        ensures
            r@ == self@.file_name,
    {
        &self.file_name
    }

    pub fn parent_id(&self) -> (r: Option<ContentId>)
        ensures
            r == self@.parent_id,
    {
        self.parent_id
    }

    pub fn type_(&self) -> (r: ContentType)
        ensures
            r == self@.type_,
    {
        self.type_
    }

    pub fn set_revision_id(&mut self, revision_id: RevisionId)
        ensures
            final(self)@ == (ContentView { revision_id, ..old(self)@ }),
    {
        self.revision_id = revision_id;
    }

    pub fn set_parent_id(&mut self, parent_id: Option<ContentId>)
        ensures
            final(self)@ == (ContentView { parent_id, ..old(self)@ }),
    {
        self.parent_id = parent_id;
    }

    pub fn set_file_name(&mut self, file_name: String)
        ensures
            final(self)@ == (ContentView { file_name: file_name@, ..old(self)@ }),
    {
        self.file_name = file_name;
    }

    /// A copy of this content.
    pub fn duplicate(&self) -> (r: Content)
        ensures
            r@ == self@,
    {
        Content {
            id: self.id,
            revision_id: self.revision_id,
            file_name: self.file_name.clone(),
            parent_id: self.parent_id,
            type_: self.type_,
        }
    }
}

impl Clone for Content {
    fn clone(&self) -> (r: Content)
        ensures
            r@ == self@,
    {
        self.duplicate()
    }
}

impl PartialEq for Content {
    fn eq(&self, other: &Content) -> (r: bool) {
        self.id == other.id && self.revision_id == other.revision_id && self.file_name
            == other.file_name && self.parent_id == other.parent_id && self.type_ == other.type_
    }
}

impl vstd::std_specs::cmp::PartialEqSpecImpl for Content {
    open spec fn obeys_eq_spec() -> bool {
        true
    }

    open spec fn eq_spec(&self, other: &Content) -> bool {
        self@ == other@
    }
}

/// Mathematical value of a sequence of contents.
pub open spec fn content_views(s: Seq<Content>) -> Seq<ContentView> {
    s.map_values(|c: Content| c@)
}

/// The relative path made of the file names of `parts`, from the first one.
pub open spec fn joined_names(parts: Seq<ContentView>) -> Seq<char>
    decreases parts.len(),
{
    if parts.len() == 0 {
        Seq::empty()
    } else {
        spec_join(joined_names(parts.drop_last()), parts.last().file_name)
    }
}

/// The chain of contents from a root content down to a content.
#[derive(Debug)]
pub struct ContentPath {
    parts: Vec<Content>,
}

impl View for ContentPath {
    type V = Seq<ContentView>;

    closed spec fn view(&self) -> Seq<ContentView> {
        content_views(self.parts@)
    }
}

impl ContentPath {
    /// The path through `parts`, from the root down.
    pub fn new(parts: Vec<Content>) -> (r: ContentPath)
        ensures
            r@ == content_views(parts@),
    {
        ContentPath { parts }
    }

    /// The contents of the path, from the root down.
    pub fn parts(&self) -> (r: &Vec<Content>)
        ensures
            content_views(r@) == self@,
    {
        &self.parts
    }

    /// The relative path on disk: the file names of the parts joined by separators.
    pub fn to_path_buf(&self) -> (r: String)
        ensures
            r@ == joined_names(self@),
    {
        let mut r = String::new();
        let n = self.parts.len();
        let mut i: usize = 0;
        let ghost parts = self@;
        proof {
            assert(parts.take(0) =~= Seq::<ContentView>::empty());
        }
        while i < n
            invariant
                n == self.parts@.len(),
                parts == content_views(self.parts@),
                i <= n,
                r@ == joined_names(parts.take(i as int)),
            decreases n - i,
        {
            assert(parts.take(i + 1).drop_last() =~= parts.take(i as int));
            r = crate::path::join(r.as_str(), self.parts[i].file_name.as_str());
            i = i + 1;
        }
        assert(parts.take(n as int) =~= parts);
        r
    }
}

} // verus!
