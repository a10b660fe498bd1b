//! The document model: works, their authors, and the references between works.
use vstd::prelude::*;

verus! {

/// Identifier of a work, unique within a document.
#[derive(Debug, Clone)]
pub struct WorkId(pub String);

impl WorkId {
    /// Returns the identifier's text, which names the work's node in a graph.
    pub fn to_dot_name(&self) -> (r: &str)
        ensures
            r@ == self.0@,
    {
        self.0.as_str()
    }
}

impl PartialEq for WorkId {
    fn eq(&self, other: &WorkId) -> (r: bool) {
        self.0 == other.0
    }
}

impl vstd::std_specs::cmp::PartialEqSpecImpl for WorkId {
    open spec fn obeys_eq_spec() -> bool {
        true
    }

    open spec fn eq_spec(&self, other: &WorkId) -> bool {
        self.0@ == other.0@
    }
}

/// Identifier of an author, unique within a document.
#[derive(Debug, Clone)]
pub struct AuthorId(pub String);

impl AuthorId {
    /// Returns the identifier's text.
    pub fn to_dot_name(&self) -> (r: &str)
        ensures
            r@ == self.0@,
    {
        self.0.as_str()
    }
}

impl PartialEq for AuthorId {
    fn eq(&self, other: &AuthorId) -> (r: bool) {
        self.0 == other.0
    }
}

impl vstd::std_specs::cmp::PartialEqSpecImpl for AuthorId {
    open spec fn obeys_eq_spec() -> bool {
        true
    }

    open spec fn eq_spec(&self, other: &AuthorId) -> bool {
        self.0@ == other.0@
    }
}

/// Where a work was published. Descriptive only.
#[derive(Debug, Clone)]
pub struct Media {
    /// Title of the venue.
    pub title: Option<String>,
    /// Organization behind the venue.
    pub organization: Option<String>,
    /// Issue or report number.
    pub number: Option<String>,
}

/// An author.
#[derive(Debug, Clone)]
pub struct Author {
    /// Name.
    pub name: String,
}

/// A citation from one work to another.
#[derive(Debug, Clone)]
pub struct Reference {
    /// The cited work.
    pub work: WorkId,
    /// How the citing work names the cited work's venue, if differently.
    pub media_title: Option<String>,
    /// How the citing work lists the cited work's authors, if differently.
    pub authors_string: Option<String>,
}

/// A citable work.
#[derive(Debug, Clone)]
pub struct Work {
    /// Title.
    pub title: String,
    /// The author list as displayed.
    pub authors_string: String,
    /// Venue.
    pub media: Option<Media>,
    /// Pages.
    pub pages: Option<String>,
    /// Year of publication.
    pub year: Option<i32>,
    /// Month of publication.
    pub month: Option<i32>,
    /// Authors, in order.
    pub authors: Vec<AuthorId>,
    /// Works that this work cites, in order.
    pub references: Vec<Reference>,
    /// Links to the work; the first one is used in graphs.
    pub urls: Vec<String>,
}

/// A document: works and authors, each keyed by identifier.
///
/// Each collection is a list of (identifier, entry) pairs; graphs list the
/// works in this order.
#[derive(Debug, Clone)]
pub struct Works {
    /// Works by identifier.
    pub works: Vec<(WorkId, Work)>,
    /// Authors by identifier.
    pub authors: Vec<(AuthorId, Author)>,
}

impl Works {
    /// The document declares an author with identifier `id`.
    pub open spec fn has_author(self, id: Seq<char>) -> bool {
        exists|k: int| 0 <= k < self.authors.len() && (#[trigger] self.authors@[k]).0.0@ == id
    }

    /// The document declares a work with identifier `id`.
    pub open spec fn has_work(self, id: Seq<char>) -> bool {
        exists|k: int| 0 <= k < self.works.len() && (#[trigger] self.works@[k]).0.0@ == id
    }

    /// Returns whether the document declares an author with identifier `id`.
    pub fn declares_author(&self, id: &AuthorId) -> (r: bool)
        ensures
            r == self.has_author(id.0@),
    {
        let mut k: usize = 0;
        while k < self.authors.len()
            invariant
                k <= self.authors.len(),
                forall|m: int| 0 <= m < k ==> (#[trigger] self.authors@[m]).0.0@ != id.0@,
            decreases self.authors.len() - k,
        {
            if self.authors[k].0.0 == id.0 {
                return true;
            }
            k += 1;
        }
        false
    }

    /// Returns whether the document declares a work with identifier `id`.
    pub fn declares_work(&self, id: &WorkId) -> (r: bool)
        ensures
            r == self.has_work(id.0@),
    {
        let mut k: usize = 0;
        while k < self.works.len()
            invariant
                k <= self.works.len(),
                forall|m: int| 0 <= m < k ==> (#[trigger] self.works@[m]).0.0@ != id.0@,
            decreases self.works.len() - k,
        {
            if self.works[k].0.0 == id.0 {
                return true;
            }
            k += 1;
        }
        false
    }

    /// Well-formedness: no two works, and no two authors, share an identifier.
    pub open spec fn wf(self) -> bool {
        &&& forall|a: int, b: int|
            0 <= a < b < self.works.len() ==> (#[trigger] self.works@[a]).0.0@ != (
            #[trigger] self.works@[b]).0.0@
        &&& forall|a: int, b: int|
            0 <= a < b < self.authors.len() ==> (#[trigger] self.authors@[a]).0.0@ != (
            #[trigger] self.authors@[b]).0.0@
    }

    /// Returns whether no two works, and no two authors, share an identifier.
    pub fn has_distinct_keys(&self) -> (r: bool)
        ensures
            r == self.wf(),
    {
        let mut b: usize = 0;
        while b < self.works.len()
            invariant
                b <= self.works.len(),
                forall|x: int, y: int|
                    0 <= x < y < b ==> (#[trigger] self.works@[x]).0.0@ != (
                    #[trigger] self.works@[y]).0.0@,
            decreases self.works.len() - b,
        {
            let mut a: usize = 0;
            while a < b
                invariant
                    a <= b < self.works.len(),
                    forall|x: int| 0 <= x < a ==> (#[trigger] self.works@[x]).0.0@ != self.works@[b as int].0.0@,
                decreases b - a,
            {
                if self.works[a].0.0 == self.works[b].0.0 {
                    return false;
                }
                a += 1;
            }
            b += 1;
        }
        let mut b: usize = 0;
        while b < self.authors.len()
            invariant
                b <= self.authors.len(),
                forall|x: int, y: int|
                    0 <= x < y < self.works.len() ==> (#[trigger] self.works@[x]).0.0@ != (
                    #[trigger] self.works@[y]).0.0@,
                forall|x: int, y: int|
                    0 <= x < y < b ==> (#[trigger] self.authors@[x]).0.0@ != (
                    #[trigger] self.authors@[y]).0.0@,
            decreases self.authors.len() - b,
        {
            let mut a: usize = 0;
            while a < b
                invariant
                    a <= b < self.authors.len(),
                    forall|x: int| 0 <= x < a ==> (#[trigger] self.authors@[x]).0.0@ != self.authors@[b as int].0.0@,
                decreases b - a,
            {
                if self.authors[a].0.0 == self.authors[b].0.0 {
                    return false;
                }
                a += 1;
            }
            b += 1;
        }
        true
    }
}

} // verus!
