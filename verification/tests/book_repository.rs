use lending_core::book::{Book, BookListOptions, CreateBook};
use lending_core::id::UserId;
use lending_core::repository::{BookRepository, BookRepositoryImpl};

#[test]
fn test_register_book() {
    let mut repo = BookRepositoryImpl::new();
    let owner = UserId::new();

    let book = CreateBook {
        title: "Test Title".into(),
        author: "Test Author".into(),
        isbn: "Test ISBN".into(),
        description: "Test Descrption".into(),
    };

    repo.create(book, owner).unwrap();

    let all_books = repo
        .find_all(BookListOptions { limit: 100, offset: 0 })
        .unwrap()
        .into_inner();

    assert_eq!(all_books.len(), 1);

    let book_id = all_books[0].id.clone();

    let created_book = repo.find_by_id(book_id.clone()).unwrap();
    assert!(created_book.is_some());

    let Book {
        id,
        title,
        author,
        isbn,
        description,
        owner: _,
    } = created_book.unwrap();

    assert_eq!(id, book_id);
    assert_eq!(title, "Test Title");
    assert_eq!(author, "Test Author");
    assert_eq!(isbn, "Test ISBN");
    assert_eq!(description, "Test Descrption");
}
