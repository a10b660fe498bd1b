//! Referential integrity of a document.
use vstd::prelude::*;

use crate::types::{AuthorId, Reference, Work, WorkId, Works};

verus! {

/// A reference to an identifier that the document does not declare.
#[derive(Debug, Clone)]
pub enum ValidationError {
    /// Work `work_id` lists an author that is not declared.
    UnknownAuthor { work_id: WorkId, author_id: AuthorId },
    /// Work `work_id` cites a work that is not declared.
    UnknownWork { work_id: WorkId, referenced_work_id: WorkId },
}

impl PartialEq for ValidationError {
    fn eq(&self, other: &ValidationError) -> (r: bool) {
        match (self, other) {
            (
                ValidationError::UnknownAuthor { work_id: w1, author_id: a1 },
                ValidationError::UnknownAuthor { work_id: w2, author_id: a2 },
            ) => w1.0 == w2.0 && a1.0 == a2.0,
            (
                ValidationError::UnknownWork { work_id: w1, referenced_work_id: t1 },
                ValidationError::UnknownWork { work_id: w2, referenced_work_id: t2 },
            ) => w1.0 == w2.0 && t1.0 == t2.0,
            _ => false,
        }
    }
}

impl vstd::std_specs::cmp::PartialEqSpecImpl for ValidationError {
    open spec fn obeys_eq_spec() -> bool {
        true
    }

    open spec fn eq_spec(&self, other: &ValidationError) -> bool {
        match (*self, *other) {
            (
                ValidationError::UnknownAuthor { work_id: w1, author_id: a1 },
                ValidationError::UnknownAuthor { work_id: w2, author_id: a2 },
            ) => w1.0@ == w2.0@ && a1.0@ == a2.0@,
            (
                ValidationError::UnknownWork { work_id: w1, referenced_work_id: t1 },
                ValidationError::UnknownWork { work_id: w2, referenced_work_id: t2 },
            ) => w1.0@ == w2.0@ && t1.0@ == t2.0@,
            _ => false,
        }
    }
}

impl Works {
    /// Every author that a work lists is declared.
    pub open spec fn authors_known(self) -> bool {
        forall|i: int, j: int|
            0 <= i < self.works.len() && 0 <= j < self.works@[i].1.authors.len() ==> self.has_author(
                (#[trigger] self.works@[i].1.authors@[j]).0@,
            )
    }

    /// Every work that a reference cites is declared.
    pub open spec fn references_known(self) -> bool {
        forall|i: int, j: int|
            0 <= i < self.works.len() && 0 <= j < self.works@[i].1.references.len()
                ==> self.has_work((#[trigger] self.works@[i].1.references@[j]).work.0@)
    }

    /// The document's referential integrity: both kinds of reference resolve.
    pub open spec fn is_consistent(self) -> bool {
        self.authors_known() && self.references_known()
    }

    /// The first author in `ids` that the document does not declare.
    pub open spec fn first_unknown_author(self, ids: Seq<AuthorId>) -> Option<AuthorId>
        decreases ids.len(),
    {
        if ids.len() == 0 {
            None
        } else if !self.has_author(ids[0].0@) {
            Some(ids[0])
        } else {
            self.first_unknown_author(ids.drop_first())
        }
    }

    /// The target of the first reference in `refs` that the document does not declare.
    pub open spec fn first_unknown_work(self, refs: Seq<Reference>) -> Option<WorkId>
        decreases refs.len(),
    {
        if refs.len() == 0 {
            None
        } else if !self.has_work(refs[0].work.0@) {
            Some(refs[0].work)
        } else {
            self.first_unknown_work(refs.drop_first())
        }
    }

    /// What is wrong with work `id`, if anything: its authors are looked at
    /// before its references.
    pub open spec fn entry_violation(self, id: WorkId, work: Work) -> Option<ValidationError> {
        match self.first_unknown_author(work.authors@) {
            Some(a) => Some(ValidationError::UnknownAuthor { work_id: id, author_id: a }),
            None => match self.first_unknown_work(work.references@) {
                Some(t) => Some(ValidationError::UnknownWork { work_id: id, referenced_work_id: t }),
                None => None,
            },
        }
    }

    /// The first violation among `entries`, taken in order.
    pub open spec fn first_violation(self, entries: Seq<(WorkId, Work)>) -> Option<ValidationError>
        decreases entries.len(),
    {
        if entries.len() == 0 {
            None
        } else {
            match self.entry_violation(entries[0].0, entries[0].1) {
                Some(e) => Some(e),
                None => self.first_violation(entries.drop_first()),
            }
        }
    }

    /// The outcome of checking the document: the first violation, works taken in order.
    pub open spec fn validation(self) -> Result<(), ValidationError> {
        match self.first_violation(self.works@) {
            Some(e) => Err(e),
            None => Ok(()),
        }
    }

    /// Checks that every author and every cited work is declared, and
    /// reports the first reference that is not.
    pub fn validate(&self) -> (r: Result<(), ValidationError>)
        ensures
            r == self.validation(),
            r is Ok <==> self.is_consistent(),
    {
        proof {
            self.lemma_consistent_iff_no_violation();
            assert(self.works@.subrange(0, self.works.len() as int) =~= self.works@);
        }
        let mut i: usize = 0;
        while i < self.works.len()
            invariant
                i <= self.works.len(),
                self.first_violation(self.works@) is None <==> self.is_consistent(),
                self.first_violation(self.works@) == self.first_violation(
                    self.works@.subrange(i as int, self.works.len() as int),
                ),
            decreases self.works.len() - i,
        {
            let ghost rest = self.works@.subrange(i as int, self.works.len() as int);
            assert(rest.drop_first() =~= self.works@.subrange(i + 1, self.works.len() as int));
            let work_id = &self.works[i].0;
            let work = &self.works[i].1;
            match self.find_unknown_author(&work.authors) {
                Some(a) => {
                    return Err(
                        ValidationError::UnknownAuthor {
                            work_id: WorkId(work_id.0.clone()),
                            author_id: a,
                        },
                    );
                },
                None => {},
            }
            match self.find_unknown_work(&work.references) {
                Some(t) => {
                    return Err(
                        ValidationError::UnknownWork {
                            work_id: WorkId(work_id.0.clone()),
                            referenced_work_id: t,
                        },
                    );
                },
                None => {},
            }
            i += 1;
        }
        assert(self.works@.subrange(i as int, self.works.len() as int).len() == 0);
        Ok(())
    }

    /// Returns the first author in `ids` that the document does not declare.
    pub fn find_unknown_author(&self, ids: &Vec<AuthorId>) -> (r: Option<AuthorId>)
        ensures
            r == self.first_unknown_author(ids@),
    {
        assert(ids@.subrange(0, ids.len() as int) =~= ids@);
        let mut j: usize = 0;
        while j < ids.len()
            invariant
                j <= ids.len(),
                self.first_unknown_author(ids@) == self.first_unknown_author(
                    ids@.subrange(j as int, ids.len() as int),
                ),
            decreases ids.len() - j,
        {
            let ghost rest = ids@.subrange(j as int, ids.len() as int);
            assert(rest.drop_first() =~= ids@.subrange(j + 1, ids.len() as int));
            if !self.declares_author(&ids[j]) {
                return Some(AuthorId(ids[j].0.clone()));
            }
            j += 1;
        }
        assert(ids@.subrange(j as int, ids.len() as int).len() == 0);
        None
    }

    /// Returns the target of the first reference in `refs` that the document
    /// does not declare.
    pub fn find_unknown_work(&self, refs: &Vec<Reference>) -> (r: Option<WorkId>)
        ensures
            r == self.first_unknown_work(refs@),
    {
        assert(refs@.subrange(0, refs.len() as int) =~= refs@);
        let mut j: usize = 0;
        while j < refs.len()
            invariant
                j <= refs.len(),
                self.first_unknown_work(refs@) == self.first_unknown_work(
                    refs@.subrange(j as int, refs.len() as int),
                ),
            decreases refs.len() - j,
        {
            let ghost rest = refs@.subrange(j as int, refs.len() as int);
            assert(rest.drop_first() =~= refs@.subrange(j + 1, refs.len() as int));
            if !self.declares_work(&refs[j].work) {
                return Some(WorkId(refs[j].work.0.clone()));
            }
            j += 1;
        }
        assert(refs@.subrange(j as int, refs.len() as int).len() == 0);
        None
    }

    /// No author in `ids` is unknown exactly when each of them is declared.
    pub proof fn lemma_first_unknown_author_none(self, ids: Seq<AuthorId>)
        ensures
            self.first_unknown_author(ids) is None <==> forall|j: int|
                0 <= j < ids.len() ==> self.has_author((#[trigger] ids[j]).0@),
        decreases ids.len(),
    {
        if ids.len() > 0 {
            self.lemma_first_unknown_author_none(ids.drop_first());
            assert forall|j: int| 1 <= j < ids.len() implies #[trigger] ids[j] == ids.drop_first()[j
                - 1] by {}
        }
    }

    /// No reference in `refs` is unknown exactly when each target is declared.
    pub proof fn lemma_first_unknown_work_none(self, refs: Seq<Reference>)
        ensures
            self.first_unknown_work(refs) is None <==> forall|j: int|
                0 <= j < refs.len() ==> self.has_work((#[trigger] refs[j]).work.0@),
        decreases refs.len(),
    {
        if refs.len() > 0 {
            self.lemma_first_unknown_work_none(refs.drop_first());
            assert forall|j: int| 1 <= j < refs.len() implies #[trigger] refs[j]
                == refs.drop_first()[j - 1] by {}
        }
    }

    /// Among `entries`, there is no violation exactly when every entry is free of one.
    pub proof fn lemma_first_violation_none(self, entries: Seq<(WorkId, Work)>)
        ensures
            self.first_violation(entries) is None <==> forall|i: int|
                0 <= i < entries.len() ==> self.entry_violation(
                    (#[trigger] entries[i]).0,
                    entries[i].1,
                ) is None,
        decreases entries.len(),
    {
        if entries.len() > 0 {
            self.lemma_first_violation_none(entries.drop_first());
            assert forall|i: int| 1 <= i < entries.len() implies #[trigger] entries[i]
                == entries.drop_first()[i - 1] by {}
        }
    }

    /// The check finds no violation exactly when the document is consistent.
    pub proof fn lemma_consistent_iff_no_violation(self)
        ensures
            self.first_violation(self.works@) is None <==> self.is_consistent(),
    {
        self.lemma_first_violation_none(self.works@);
        assert forall|i: int| 0 <= i < self.works.len() implies (self.entry_violation(
            #[trigger] self.works@[i].0,
            self.works@[i].1,
        ) is None <==> (forall|j: int|
            0 <= j < self.works@[i].1.authors.len() ==> self.has_author(
                (#[trigger] self.works@[i].1.authors@[j]).0@,
            )) && (forall|j: int|
            0 <= j < self.works@[i].1.references.len() ==> self.has_work(
                (#[trigger] self.works@[i].1.references@[j]).work.0@,
            ))) by {
            self.lemma_first_unknown_author_none(self.works@[i].1.authors@);
            self.lemma_first_unknown_work_none(self.works@[i].1.references@);
        }
    }

    /// An unknown author that the scan reports is one of `ids`, and undeclared.
    pub proof fn lemma_first_unknown_author_some(self, ids: Seq<AuthorId>)
        ensures
            self.first_unknown_author(ids) matches Some(a) ==> exists|j: int|
                0 <= j < ids.len() && #[trigger] ids[j] == a && !self.has_author(a.0@),
        decreases ids.len(),
    {
        if ids.len() > 0 && self.has_author(ids[0].0@) {
            self.lemma_first_unknown_author_some(ids.drop_first());
            if let Some(a) = self.first_unknown_author(ids) {
                let j = choose|j: int|
                    0 <= j < ids.drop_first().len() && #[trigger] ids.drop_first()[j] == a
                        && !self.has_author(a.0@);
                assert(ids[j + 1] == a);
            }
        }
    }

    /// An unknown target that the scan reports is cited by one of `refs`, and undeclared.
    pub proof fn lemma_first_unknown_work_some(self, refs: Seq<Reference>)
        ensures
            self.first_unknown_work(refs) matches Some(t) ==> exists|j: int|
                0 <= j < refs.len() && (#[trigger] refs[j]).work == t && !self.has_work(t.0@),
        decreases refs.len(),
    {
        if refs.len() > 0 && self.has_work(refs[0].work.0@) {
            self.lemma_first_unknown_work_some(refs.drop_first());
            if let Some(t) = self.first_unknown_work(refs) {
                let j = choose|j: int|
                    0 <= j < refs.drop_first().len() && (#[trigger] refs.drop_first()[j]).work
                        == t && !self.has_work(t.0@);
                assert(refs[j + 1] == refs.drop_first()[j]);
            }
        }
    }

    /// A violation that the scan reports is that of one of `entries`.
    pub proof fn lemma_first_violation_some(self, entries: Seq<(WorkId, Work)>)
        ensures
            self.first_violation(entries) matches Some(e) ==> exists|i: int|
                0 <= i < entries.len() && self.entry_violation(
                    (#[trigger] entries[i]).0,
                    entries[i].1,
                ) == Some(e),
        decreases entries.len(),
    {
        if entries.len() > 0 && self.entry_violation(entries[0].0, entries[0].1) is None {
            self.lemma_first_violation_some(entries.drop_first());
            if let Some(e) = self.first_violation(entries) {
                let i = choose|i: int|
                    0 <= i < entries.drop_first().len() && self.entry_violation(
                        (#[trigger] entries.drop_first()[i]).0,
                        entries.drop_first()[i].1,
                    ) == Some(e);
                assert(entries[i + 1] == entries.drop_first()[i]);
            }
        }
    }

    /// A document in which every author and every cited work is declared
    /// passes the check.
    pub proof fn lemma_consistent_document_validates(self)
        requires
            self.is_consistent(),
        ensures
            self.validation() == Ok::<(), ValidationError>(()),
    {
        self.lemma_consistent_iff_no_violation();
    }

    /// A document in which work `i` lists the undeclared author at position
    /// `j`, and whose references all resolve, fails the check with
    /// `UnknownAuthor`, naming a work and an undeclared author that it lists.
    pub proof fn lemma_unknown_author_reported(self, i: int, j: int)
        requires
            0 <= i < self.works.len(),
            0 <= j < self.works@[i].1.authors.len(),
            !self.has_author(self.works@[i].1.authors@[j].0@),
            self.references_known(),
        ensures
            self.validation() matches Err(ValidationError::UnknownAuthor { work_id, author_id })
                && exists|m: int, n: int|
                0 <= m < self.works.len() && 0 <= n < self.works@[m].1.authors.len()
                    && (#[trigger] self.works@[m]).0 == work_id
                    && #[trigger] self.works@[m].1.authors@[n] == author_id
                    && !self.has_author(author_id.0@),
    {
        self.lemma_consistent_iff_no_violation();
        self.lemma_first_violation_some(self.works@);
        let e = self.first_violation(self.works@)->0;
        let m = choose|m: int|
            0 <= m < self.works.len() && self.entry_violation(
                (#[trigger] self.works@[m]).0,
                self.works@[m].1,
            ) == Some(e);
        let refs = self.works@[m].1.references@;
        self.lemma_first_unknown_work_some(refs);
        if let Some(t) = self.first_unknown_work(refs) {
            let n = choose|n: int|
                0 <= n < refs.len() && (#[trigger] refs[n]).work == t && !self.has_work(t.0@);
            assert(self.has_work(self.works@[m].1.references@[n].work.0@));
        }
        let ids = self.works@[m].1.authors@;
        self.lemma_first_unknown_author_some(ids);
    }

    /// A document in which work `i` cites an undeclared work at position
    /// `j`, and whose authors all resolve, fails the check with
    /// `UnknownWork`, naming a work and an undeclared target that it cites.
    pub proof fn lemma_unknown_work_reported(self, i: int, j: int)
        requires
            0 <= i < self.works.len(),
            0 <= j < self.works@[i].1.references.len(),
            !self.has_work(self.works@[i].1.references@[j].work.0@),
            self.authors_known(),
        ensures
            self.validation() matches Err(
                ValidationError::UnknownWork { work_id, referenced_work_id },
            ) && exists|m: int, n: int|
                0 <= m < self.works.len() && 0 <= n < self.works@[m].1.references.len()
                    && (#[trigger] self.works@[m]).0 == work_id
                    && (#[trigger] self.works@[m].1.references@[n]).work == referenced_work_id
                    && !self.has_work(referenced_work_id.0@),
    {
        self.lemma_consistent_iff_no_violation();
        self.lemma_first_violation_some(self.works@);
        let e = self.first_violation(self.works@)->0;
        let m = choose|m: int|
            0 <= m < self.works.len() && self.entry_violation(
                (#[trigger] self.works@[m]).0,
                self.works@[m].1,
            ) == Some(e);
        let ids = self.works@[m].1.authors@;
        self.lemma_first_unknown_author_some(ids);
        if let Some(a) = self.first_unknown_author(ids) {
            let n = choose|n: int| 0 <= n < ids.len() && #[trigger] ids[n] == a && !self.has_author(a.0@);
            assert(self.has_author(self.works@[m].1.authors@[n].0@));
        }
        let refs = self.works@[m].1.references@;
        self.lemma_first_unknown_work_some(refs);
    }
}

} // verus!
