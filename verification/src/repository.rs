//! The abstract persistence contract for book records, and an in-memory
//! adapter satisfying it.
//!
//! The contract is stated over the abstract sequence of stored records, so
//! a caller depends only on what the operations do to that sequence, never
//! on the storage engine behind them. Per record the lifecycle is: absent,
//! then created, then updated any number of times, then deleted. A deleted
//! identifier is never revived: the repository remembers every identifier
//! it ever assigned, and a create refuses each of them as the constraint
//! violation a unique key would report — a fresh create always allocates a
//! new identifier.

use vstd::prelude::*;

use crate::book::{
    can_modify, created_view, has_book_id, owner_accepts, page_of, updated_view, Book, BookView,
    CreateBook, DeleteBook, UpdateBook, BookListOptions,
};
use crate::errors::AppError;
use crate::id::{BookId, UserId};
use crate::list::PagenatedList;

verus! {

/// The identifier `k` is among these.
pub open spec fn id_among(ids: Seq<BookId>, k: Seq<char>) -> bool {
    exists|i: int| 0 <= i < ids.len() && (#[trigger] ids[i]@) == k
}

proof fn lemma_id_among_push(ids: Seq<BookId>, x: BookId, k: Seq<char>)
    ensures
        id_among(ids.push(x), k) <==> (id_among(ids, k) || x@ == k),
{
    if id_among(ids.push(x), k) {
        let i = choose|i: int| 0 <= i < ids.push(x).len() && (#[trigger] ids.push(x)[i]@) == k;
        if i < ids.len() {
            assert(ids[i]@ == k);
        } else {
            assert(x@ == k);
        }
    }
    if id_among(ids, k) {
        let i = choose|i: int| 0 <= i < ids.len() && (#[trigger] ids[i]@) == k;
        assert(ids.push(x)[i]@ == k);
    }
    if x@ == k {
        assert(ids.push(x)[ids.len() as int]@ == k);
    }
}

/// What every book repository promises, stated over the abstract sequence
/// of stored records `books()` and the set `assigned()` of identifiers
/// ever handed out.
pub trait BookRepository: Sized {
    /// The stored records, in creation order (oldest first).
    spec fn books(&self) -> Seq<BookView>;

    /// Every identifier this repository has ever assigned, the identifiers
    /// of since-deleted records included.
    spec fn assigned(&self) -> Set<Seq<char>>;

    /// Inserts a new record with the event's fields, owned by the acting
    /// user, under a freshly assigned identifier — one never assigned
    /// before, so a deleted identifier cannot come back. Fails only with a
    /// persistence error — a constraint violation or a connectivity
    /// failure — and then changes nothing.
    fn create(&mut self, event: CreateBook, user_id: UserId) -> (r: Result<(), AppError>)
        ensures
            r is Ok ==> final(self).books().len() == old(self).books().len() + 1
                && final(self).books().drop_last() == old(self).books()
                && final(self).books().last() == created_view(
                event,
                user_id@,
                final(self).books().last().id,
            ) && !has_book_id(old(self).books(), final(self).books().last().id)
                && !old(self).assigned().contains(final(self).books().last().id)
                && final(self).assigned() == old(self).assigned().insert(
                final(self).books().last().id,
            ),
            r is Err ==> final(self).books() == old(self).books()
                && final(self).assigned() == old(self).assigned()
                && r->Err_0 is SpecificOperationError,
    ;

    /// Materializes one page of the stored records, newest first. The
    /// reported total is computed from the full set, independent of the
    /// page size requested.
    fn find_all(&self, options: BookListOptions) -> (r: Result<PagenatedList<Book>, AppError>)
        ensures
            r is Ok,
            r->Ok_0.total == self.books().len(),
            r->Ok_0.limit == options.limit,
            r->Ok_0.offset == options.offset,
            r->Ok_0.items@.map_values(|b: Book| b@) == page_of(
                self.books().reverse(),
                options.limit as int,
                options.offset as int,
            ),
            r->Ok_0.wf(),
    ;

    /// Looks a record up by its identifier. Absence is a normal `None`,
    /// not an error.
    fn find_by_id(&self, book_id: BookId) -> (r: Result<Option<Book>, AppError>)
        ensures
            match r {
                Ok(Some(b)) => exists|i: int|
                    0 <= i < self.books().len() && (#[trigger] self.books()[i].id) == book_id@
                        && b@ == self.books()[i],
                Ok(None) => !has_book_id(self.books(), book_id@),
                Err(_) => false,
            },
    ;

    /// Replaces the natural fields of the record the event names, if it
    /// exists and the requesting user may modify it; the identifier and
    /// the owner are untouched. A missing record is `EntityNotFound`, an
    /// unauthorized request is `ForbiddenOperation`, and either failure
    /// leaves every record unchanged.
    fn update(&mut self, event: UpdateBook) -> (r: Result<(), AppError>)
        ensures
            final(self).assigned() == old(self).assigned(),
            !has_book_id(old(self).books(), event.book_id@) ==> r is Err
                && r->Err_0 is EntityNotFound && final(self).books() == old(self).books(),
            has_book_id(old(self).books(), event.book_id@) && !owner_accepts(
                old(self).books(),
                event.book_id@,
                event.requested_user@,
            ) ==> r is Err && r->Err_0 is ForbiddenOperation && final(self).books() == old(
                self,
            ).books(),
            owner_accepts(old(self).books(), event.book_id@, event.requested_user@) ==> r is Ok
                && exists|i: int|
                0 <= i < old(self).books().len() && (#[trigger] old(self).books()[i].id)
                    == event.book_id@ && can_modify(old(self).books()[i].owner, event.requested_user@)
                    && final(self).books() == old(self).books().update(
                    i,
                    updated_view(old(self).books()[i], event),
                ),
    ;

    /// Removes the record the event names, if it exists and the requesting
    /// user may modify it, under the same authorization contract as
    /// `update`. The removed identifier stays assigned forever.
    fn delete(&mut self, event: DeleteBook) -> (r: Result<(), AppError>)
        ensures
            final(self).assigned() == old(self).assigned(),
            !has_book_id(old(self).books(), event.book_id@) ==> r is Err
                && r->Err_0 is EntityNotFound && final(self).books() == old(self).books(),
            has_book_id(old(self).books(), event.book_id@) && !owner_accepts(
                old(self).books(),
                event.book_id@,
                event.requested_user@,
            ) ==> r is Err && r->Err_0 is ForbiddenOperation && final(self).books() == old(
                self,
            ).books(),
            owner_accepts(old(self).books(), event.book_id@, event.requested_user@) ==> r is Ok
                && exists|i: int|
                0 <= i < old(self).books().len() && (#[trigger] old(self).books()[i].id)
                    == event.book_id@ && can_modify(old(self).books()[i].owner, event.requested_user@)
                    && final(self).books() == old(self).books().remove(i),
    ;
}

/// An in-memory adapter: records live in a vector, in creation order, one
/// record per identifier, beside the log of every identifier ever
/// assigned.
pub struct BookRepositoryImpl {
    db: Vec<Book>,
    assigned: Vec<BookId>,
}

impl BookRepositoryImpl {
    /// No two stored records carry the same identifier, and every stored
    /// identifier was assigned by this repository.
    #[verifier::type_invariant]
    spec fn wf(self) -> bool {
        &&& forall|i: int, j: int|
            0 <= i < j < self.db@.len() ==> (#[trigger] self.db@[i].id@) != (
            #[trigger] self.db@[j].id@)
        &&& forall|i: int|
            0 <= i < self.db@.len() ==> id_among(self.assigned@, (#[trigger] self.db@[i]).id@)
    }

    /// An empty repository: no records, no identifier assigned yet.
    pub fn new() -> (r: BookRepositoryImpl)
        ensures
            r.books() == Seq::<BookView>::empty(),
            r.assigned() == Set::<Seq<char>>::empty(),
    {
        let db: Vec<Book> = Vec::new();
        let assigned: Vec<BookId> = Vec::new();
        proof {
            assert(db@.map_values(|b: Book| b@) =~= Seq::<BookView>::empty());
            assert(Set::new(|k: Seq<char>| id_among(assigned@, k)) =~= Set::<Seq<char>>::empty());
        }
        BookRepositoryImpl { db, assigned }
    }

    /// The index of the record carrying `book_id`, if one does.
    fn find_index(db: &Vec<Book>, book_id: &BookId) -> (r: Option<usize>)
        ensures
            match r {
                Some(i) => i < db@.len() && db@[i as int].id@ == book_id@,
                None => forall|j: int| 0 <= j < db@.len() ==> (#[trigger] db@[j].id@) != book_id@,
            },
    {
        let mut i: usize = 0;
        while i < db.len()
            invariant
                i <= db@.len(),
                forall|j: int| 0 <= j < i ==> (#[trigger] db@[j].id@) != book_id@,
            decreases db@.len() - i,
        {
            let b = &db[i];
            if b.id == *book_id {
                return Some(i);
            }
            i = i + 1;
        }
        None
    }

    /// Whether `id` was ever assigned.
    fn contains_id(ids: &Vec<BookId>, id: &BookId) -> (r: bool)
        ensures
            r == id_among(ids@, id@),
    {
        let mut i: usize = 0;
        while i < ids.len()
            invariant
                i <= ids@.len(),
                forall|j: int| 0 <= j < i ==> (#[trigger] ids@[j]@) != id@,
            decreases ids@.len() - i,
        {
            let b = &ids[i];
            if *b == *id {
                proof {
                    assert(ids@[i as int]@ == id@);
                }
                return true;
            }
            i = i + 1;
        }
        proof {
            if id_among(ids@, id@) {
                let j = choose|j: int| 0 <= j < ids@.len() && (#[trigger] ids@[j]@) == id@;
                assert(false);
            }
        }
        false
    }

    /// Inserts the event's fields as a new record under `id`, owned by the
    /// acting user — exactly when `id` was never assigned before, deleted
    /// identifiers included. An identifier ever assigned is the constraint
    /// violation a unique key would report.
    pub fn create_with_id(&mut self, event: CreateBook, user_id: UserId, id: BookId) -> (r: Result<
        (),
        AppError,
    >)
        ensures
            !old(self).assigned().contains(id@) ==> r is Ok && final(self).books() == old(
                self,
            ).books().push(created_view(event, user_id@, id@)) && final(self).assigned() == old(
                self,
            ).assigned().insert(id@),
            old(self).assigned().contains(id@) ==> r is Err
                && r->Err_0 is SpecificOperationError && final(self).books() == old(self).books()
                && final(self).assigned() == old(self).assigned(),
    {
        proof {
            use_type_invariant(&*self);
        }
        if Self::contains_id(&self.assigned, &id) {
            Err(AppError::SpecificOperationError("duplicate book id".to_owned()))
        } else {
            proof {
                assert forall|i: int|
                    0 <= i < self.db@.len() implies (#[trigger] self.db@[i]).id@ != id@ by {
                    if self.db@[i].id@ == id@ {
                        assert(id_among(self.assigned@, id@));
                    }
                }
            }
            let id_log = id.clone();
            let book = Book {
                id,
                title: event.title,
                author: event.author,
                isbn: event.isbn,
                description: event.description,
                owner: user_id,
            };
            let ghost pre_db = self.db@;
            let ghost pre_assigned = self.assigned@;
            let mut db: Vec<Book> = Vec::new();
            let mut assigned: Vec<BookId> = Vec::new();
            std::mem::swap(&mut db, &mut self.db);
            std::mem::swap(&mut assigned, &mut self.assigned);
            db.push(book);
            assigned.push(id_log);
            proof {
                assert forall|k: Seq<char>| #[trigger] id_among(assigned@, k) == (id_among(
                    pre_assigned,
                    k,
                ) || k == id@) by {
                    lemma_id_among_push(pre_assigned, id_log, k);
                }
                assert(Set::new(|k: Seq<char>| id_among(assigned@, k)) =~= Set::new(
                    |k: Seq<char>| id_among(pre_assigned, k),
                ).insert(id@));
                assert forall|i: int|
                    0 <= i < db@.len() implies id_among(assigned@, (#[trigger] db@[i]).id@) by {
                    if i < pre_db.len() {
                        assert(db@[i] == pre_db[i]);
                        assert(id_among(pre_assigned, db@[i].id@));
                    } else {
                        assert(db@[i].id@ == id@);
                    }
                }
                assert(db@.map_values(|b: Book| b@) =~= pre_db.map_values(|b: Book| b@).push(
                    created_view(event, user_id@, id@),
                ));
            }
            self.assigned = assigned;
            self.db = db;
            Ok(())
        }
    }
}

impl BookRepository for BookRepositoryImpl {
    closed spec fn books(&self) -> Seq<BookView> {
        self.db@.map_values(|b: Book| b@)
    }

    closed spec fn assigned(&self) -> Set<Seq<char>> {
        Set::new(|k: Seq<char>| id_among(self.assigned@, k))
    }

    fn create(&mut self, event: CreateBook, user_id: UserId) -> (r: Result<(), AppError>) {
        proof {
            use_type_invariant(&*self);
        }
        let id = BookId::new();
        let ghost idv = id@;
        let r = self.create_with_id(event, user_id, id);
        proof {
            if r is Ok {
                assert(!old(self).assigned().contains(idv));
                if has_book_id(old(self).books(), idv) {
                    let i = choose|i: int|
                        0 <= i < old(self).books().len() && (#[trigger] old(self).books()[i].id)
                            == idv;
                    assert(old(self).db@[i].id@ == idv);
                    assert(id_among(old(self).assigned@, idv));
                }
                assert(final(self).books().last() == created_view(event, user_id@, idv));
                assert(final(self).books().drop_last() =~= old(self).books());
            }
        }
        r
    }

    fn find_all(&self, options: BookListOptions) -> (r: Result<PagenatedList<Book>, AppError>) {
        let len = self.db.len();
        let start = if options.offset < len {
            options.offset
        } else {
            len
        };
        let end = if options.limit < len - start {
            start + options.limit
        } else {
            len
        };
        let ghost revd = self.books().reverse();
        proof {
            assert(revd.len() == self.db@.len());
        }
        let mut items: Vec<Book> = Vec::new();
        let mut i: usize = start;
        proof {
            assert(items@.map_values(|b: Book| b@) =~= revd.subrange(
                start as int,
                start as int,
            ));
        }
        while i < end
            invariant
                start <= i <= end <= self.db@.len(),
                len == self.db@.len(),
                revd == self.books().reverse(),
                revd.len() == self.db@.len(),
                items@.len() == i - start,
                items@.map_values(|b: Book| b@) == revd.subrange(start as int, i as int),
            decreases end - i,
        {
            let idx = len - 1 - i;
            let b = self.db[idx].clone();
            proof {
                assert(revd[i as int] == self.books()[idx as int]);
            }
            let ghost pre_items = items@;
            items.push(b);
            proof {
                assert forall|j: int|
                    0 <= j < items@.len() implies items@.map_values(|bk: Book| bk@)[j] == (
                #[trigger] revd.subrange(start as int, i + 1)[j]) by {
                    if j < pre_items.len() {
                        assert(pre_items.map_values(|bk: Book| bk@)[j] == revd.subrange(
                            start as int,
                            i as int,
                        )[j]);
                    }
                }
                assert(items@.map_values(|bk: Book| bk@) =~= revd.subrange(start as int, i + 1));
            }
            i = i + 1;
        }
        proof {
            assert(revd.subrange(start as int, end as int) =~= page_of(
                revd,
                options.limit as int,
                options.offset as int,
            ));
        }
        Ok(
            PagenatedList {
                total: len,
                limit: options.limit,
                offset: options.offset,
                items,
            },
        )
    }

    fn find_by_id(&self, book_id: BookId) -> (r: Result<Option<Book>, AppError>) {
        let found = Self::find_index(&self.db, &book_id);
        match found {
            Some(i) => {
                let b = self.db[i].clone();
                proof {
                    assert(self.books()[i as int].id == book_id@);
                }
                Ok(Some(b))
            },
            None => {
                proof {
                    if has_book_id(self.books(), book_id@) {
                        let i = choose|i: int|
                            0 <= i < self.books().len() && (#[trigger] self.books()[i].id)
                                == book_id@;
                        assert(self.db@[i].id@ == book_id@);
                    }
                }
                Ok(None)
            },
        }
    }

    fn update(&mut self, event: UpdateBook) -> (r: Result<(), AppError>) {
        proof {
            use_type_invariant(&*self);
        }
        let found = Self::find_index(&self.db, &event.book_id);
        match found {
            Some(i) => {
                proof {
                    assert(self.books()[i as int].id == event.book_id@);
                }
                let stored = &self.db[i];
                if stored.owner == event.requested_user {
                    let id = stored.id.clone();
                    let owner = stored.owner.clone();
                    let book = Book {
                        id,
                        title: event.title,
                        author: event.author,
                        isbn: event.isbn,
                        description: event.description,
                        owner,
                    };
                    let ghost pre = self.db@;
                    let mut db: Vec<Book> = Vec::new();
                    std::mem::swap(&mut db, &mut self.db);
                    db.remove(i);
                    db.insert(i, book);
                    proof {
                        assert(db@ =~= pre.update(i as int, book));
                        assert(forall|a: int, b: int|
                            0 <= a < b < db@.len() ==> (#[trigger] db@[a].id@) != (
                            #[trigger] db@[b].id@));
                        assert forall|a: int|
                            0 <= a < db@.len() implies id_among(
                            self.assigned@,
                            (#[trigger] db@[a]).id@,
                        ) by {
                            assert(db@[a].id@ == pre[a].id@);
                        }
                        assert(db@.map_values(|b: Book| b@) =~= pre.map_values(|b: Book| b@).update(
                            i as int,
                            updated_view(pre.map_values(|b: Book| b@)[i as int], event),
                        ));
                    }
                    self.db = db;
                    Ok(())
                } else {
                    proof {
                        if owner_accepts(self.books(), event.book_id@, event.requested_user@) {
                            let j = choose|j: int|
                                0 <= j < self.books().len() && (#[trigger] self.books()[j].id)
                                    == event.book_id@ && can_modify(
                                    self.books()[j].owner,
                                    event.requested_user@,
                                );
                            assert(self.db@[j].id@ == event.book_id@);
                            assert(j == i as int);
                        }
                    }
                    Err(AppError::ForbiddenOperation)
                }
            },
            None => {
                proof {
                    if has_book_id(self.books(), event.book_id@) {
                        let j = choose|j: int|
                            0 <= j < self.books().len() && (#[trigger] self.books()[j].id)
                                == event.book_id@;
                        assert(self.db@[j].id@ == event.book_id@);
                    }
                }
                Err(AppError::EntityNotFound("book not found".to_owned()))
            },
        }
    }

    fn delete(&mut self, event: DeleteBook) -> (r: Result<(), AppError>) {
        proof {
            use_type_invariant(&*self);
        }
        let found = Self::find_index(&self.db, &event.book_id);
        match found {
            Some(i) => {
                proof {
                    assert(self.books()[i as int].id == event.book_id@);
                }
                let stored = &self.db[i];
                if stored.owner == event.requested_user {
                    let ghost pre = self.db@;
                    let mut db: Vec<Book> = Vec::new();
                    std::mem::swap(&mut db, &mut self.db);
                    db.remove(i);
                    proof {
                        assert(forall|a: int, b: int|
                            0 <= a < b < db@.len() ==> (#[trigger] db@[a].id@) != (
                            #[trigger] db@[b].id@));
                        assert forall|a: int|
                            0 <= a < db@.len() implies id_among(
                            self.assigned@,
                            (#[trigger] db@[a]).id@,
                        ) by {
                            if a < i as int {
                                assert(db@[a].id@ == pre[a].id@);
                            } else {
                                assert(db@[a].id@ == pre[a + 1].id@);
                            }
                        }
                        assert(db@.map_values(|b: Book| b@) =~= pre.map_values(
                            |b: Book| b@,
                        ).remove(i as int));
                    }
                    self.db = db;
                    Ok(())
                } else {
                    proof {
                        if owner_accepts(self.books(), event.book_id@, event.requested_user@) {
                            let j = choose|j: int|
                                0 <= j < self.books().len() && (#[trigger] self.books()[j].id)
                                    == event.book_id@ && can_modify(
                                    self.books()[j].owner,
                                    event.requested_user@,
                                );
                            assert(self.db@[j].id@ == event.book_id@);
                            assert(j == i as int);
                        }
                    }
                    Err(AppError::ForbiddenOperation)
                }
            },
            None => {
                proof {
                    if has_book_id(self.books(), event.book_id@) {
                        let j = choose|j: int|
                            0 <= j < self.books().len() && (#[trigger] self.books()[j].id)
                                == event.book_id@;
                        assert(self.db@[j].id@ == event.book_id@);
                    }
                }
                Err(AppError::EntityNotFound("book not found".to_owned()))
            },
        }
    }
}

} // verus!
