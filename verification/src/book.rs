//! Book records and the events that create, change and destroy them.
//!
//! Mutating events carry the identity of the user requesting the mutation,
//! so authorization is a pure function of the event and the stored record,
//! decidable without any request-scoped context.

use vstd::prelude::*;

verus! {

/// The abstract content of a stored book record.
pub struct BookView {
    pub id: Seq<char>,
    pub title: Seq<char>,
    pub author: Seq<char>,
    pub isbn: Seq<char>,
    pub description: Seq<char>,
    pub owner: Seq<char>,
}

/// A book record: its identifier, its natural fields, and the identity of
/// the user who owns it.
#[derive(Debug)]
pub struct Book {
    pub id: crate::id::BookId,
    pub title: String,
    pub author: String,
    pub isbn: String,
    pub description: String,
    pub owner: crate::id::UserId,
}

impl View for Book {
    type V = BookView;

    open spec fn view(&self) -> BookView {
        BookView {
            id: self.id@,
            title: self.title@,
            author: self.author@,
            isbn: self.isbn@,
            description: self.description@,
            owner: self.owner@,
        }
    }
}

impl Clone for Book {
    fn clone(&self) -> (r: Book)
        ensures
            r == *self,
    {
        Book {
            id: self.id.clone(),
            title: self.title.clone(),
            author: self.author.clone(),
            isbn: self.isbn.clone(),
            description: self.description.clone(),
            owner: self.owner.clone(),
        }
    }
}

/// Event: insert a new book with these natural fields.
#[derive(Debug)]
pub struct CreateBook {
    pub title: String,
    pub author: String,
    pub isbn: String,
    pub description: String,
}

/// Event: replace the natural fields of the book `book_id`, requested by
/// `requested_user`.
#[derive(Debug)]
pub struct UpdateBook {
    pub book_id: crate::id::BookId,
    pub requested_user: crate::id::UserId,
    pub title: String,
    pub author: String,
    pub isbn: String,
    pub description: String,
}

/// Event: destroy the book `book_id`, requested by `requested_user`.
#[derive(Debug)]
pub struct DeleteBook {
    pub book_id: crate::id::BookId,
    pub requested_user: crate::id::UserId,
}

/// The slice of the matching set that a find-all call materializes.
#[derive(Debug, Clone, Copy)]
pub struct BookListOptions {
    pub limit: usize,
    pub offset: usize,
}

/// A transport-level request to create a book, before it becomes an event.
#[derive(Debug)]
pub struct CreateBookRequest {
    pub title: String,
    pub author: String,
    pub isbn: String,
    pub description: String,
}

impl From<CreateBookRequest> for CreateBook {
    fn from(value: CreateBookRequest) -> (r: CreateBook) {
        CreateBook {
            title: value.title,
            author: value.author,
            isbn: value.isbn,
            description: value.description,
        }
    }
}

impl vstd::std_specs::convert::FromSpecImpl<CreateBookRequest> for CreateBook {
    open spec fn obeys_from_spec() -> bool {
        true
    }

    open spec fn from_spec(value: CreateBookRequest) -> CreateBook {
        CreateBook {
            title: value.title,
            author: value.author,
            isbn: value.isbn,
            description: value.description,
        }
    }
}

/// The authorization policy for mutating a stored record: the requesting
/// user must own it.
pub open spec fn can_modify(owner: Seq<char>, requester: Seq<char>) -> bool {
    owner == requester
}

/// The record a create event inserts: the event's natural fields, owned by
/// the acting user, under the assigned identifier.
pub open spec fn created_view(event: CreateBook, owner: Seq<char>, id: Seq<char>) -> BookView {
    BookView {
        id: id,
        title: event.title@,
        author: event.author@,
        isbn: event.isbn@,
        description: event.description@,
        owner: owner,
    }
}

/// The record an update event leaves behind: the identifier and the owner
/// are untouched, the natural fields are replaced.
pub open spec fn updated_view(b: BookView, event: UpdateBook) -> BookView {
    BookView {
        id: b.id,
        title: event.title@,
        author: event.author@,
        isbn: event.isbn@,
        description: event.description@,
        owner: b.owner,
    }
}

/// Some stored record carries this identifier.
pub open spec fn has_book_id(books: Seq<BookView>, id: Seq<char>) -> bool {
    exists|i: int| 0 <= i < books.len() && (#[trigger] books[i].id) == id
}

/// Some stored record carries this identifier and may be modified by this
/// requester.
pub open spec fn owner_accepts(books: Seq<BookView>, id: Seq<char>, requester: Seq<char>) -> bool {
    exists|i: int|
        0 <= i < books.len() && (#[trigger] books[i].id) == id && can_modify(
            books[i].owner,
            requester,
        )
}

/// The page a limit/offset request selects out of the full matching set.
pub open spec fn page_of(books: Seq<BookView>, limit: int, offset: int) -> Seq<BookView> {
    let start = if offset <= books.len() {
        offset
    } else {
        books.len() as int
    };
    let end = if offset + limit <= books.len() {
        offset + limit
    } else {
        books.len() as int
    };
    books.subrange(start, end)
}

/// Pagination law: the page a request selects holds `limit` records when
/// the set reaches past the window, the remainder after `offset` when it
/// ends inside it, and nothing when `offset` lies beyond it — and each
/// record of the page is the stored record `offset` positions further in.
/// The total a find-all reports is the set's length, independent of this.
pub proof fn lemma_page_shape(books: Seq<BookView>, limit: int, offset: int)
    requires
        0 <= limit,
        0 <= offset,
    ensures
        page_of(books, limit, offset).len() == if offset + limit <= books.len() {
            limit
        } else if offset <= books.len() {
            books.len() - offset
        } else {
            0
        },
        page_of(books, limit, offset).len() <= limit,
        forall|i: int|
            0 <= i < page_of(books, limit, offset).len() ==> #[trigger] page_of(
                books,
                limit,
                offset,
            )[i] == books[offset + i],
{
}

} // verus!
