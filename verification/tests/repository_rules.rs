use lending_core::book::{BookListOptions, CreateBook, DeleteBook, UpdateBook};
use lending_core::errors::{require_admin, AppError};
use lending_core::id::{BookId, UserId};
use lending_core::repository::{BookRepository, BookRepositoryImpl};

fn sample_event(n: usize) -> CreateBook {
    CreateBook {
        title: format!("title {}", n),
        author: format!("author {}", n),
        isbn: format!("isbn {}", n),
        description: format!("description {}", n),
    }
}

#[test]
fn pagination_is_consistent_with_the_full_count() {
    let mut repo = BookRepositoryImpl::new();
    let owner = UserId::new();
    for n in 0..25 {
        repo.create(sample_event(n), owner.clone()).unwrap();
    }

    let page = repo
        .find_all(BookListOptions { limit: 10, offset: 20 })
        .unwrap();
    assert_eq!(page.total, 25);
    assert_eq!(page.limit, 10);
    assert_eq!(page.offset, 20);
    let items = page.into_inner();
    assert_eq!(items.len(), 5);
    // pages run newest first, so the last page holds the oldest records
    for (pos, b) in items.iter().enumerate() {
        assert_eq!(b.title, format!("title {}", 4 - pos));
    }

    let first_page = repo
        .find_all(BookListOptions { limit: 10, offset: 0 })
        .unwrap();
    assert_eq!(first_page.total, 25);
    let first_items = first_page.into_inner();
    assert_eq!(first_items.len(), 10);
    // the first page starts with the newest record
    assert_eq!(first_items[0].title, "title 24");

    let beyond = repo
        .find_all(BookListOptions { limit: 10, offset: 40 })
        .unwrap();
    assert_eq!(beyond.total, 25);
    assert_eq!(beyond.into_inner().len(), 0);
}

#[test]
fn find_by_id_on_nonexistent_id_is_none() {
    let repo = BookRepositoryImpl::new();
    let got = repo.find_by_id(BookId::new()).unwrap();
    assert!(got.is_none());
}

#[test]
fn update_on_nonexistent_id_is_not_found() {
    let mut repo = BookRepositoryImpl::new();
    let r = repo.update(UpdateBook {
        book_id: BookId::new(),
        requested_user: UserId::new(),
        title: "t".into(),
        author: "a".into(),
        isbn: "i".into(),
        description: "d".into(),
    });
    assert!(matches!(r, Err(AppError::EntityNotFound(_))));
}

#[test]
fn delete_on_nonexistent_id_is_not_found() {
    let mut repo = BookRepositoryImpl::new();
    let r = repo.delete(DeleteBook {
        book_id: BookId::new(),
        requested_user: UserId::new(),
    });
    assert!(matches!(r, Err(AppError::EntityNotFound(_))));
}

#[test]
fn unauthorized_mutation_is_forbidden_and_changes_nothing() {
    let mut repo = BookRepositoryImpl::new();
    let owner = UserId::new();
    let stranger = UserId::new();
    repo.create(sample_event(1), owner.clone()).unwrap();
    let book_id = repo
        .find_all(BookListOptions { limit: 1, offset: 0 })
        .unwrap()
        .into_inner()[0]
        .id
        .clone();

    let r = repo.update(UpdateBook {
        book_id: book_id.clone(),
        requested_user: stranger.clone(),
        title: "changed".into(),
        author: "changed".into(),
        isbn: "changed".into(),
        description: "changed".into(),
    });
    assert!(matches!(r, Err(AppError::ForbiddenOperation)));

    let r = repo.delete(DeleteBook {
        book_id: book_id.clone(),
        requested_user: stranger,
    });
    assert!(matches!(r, Err(AppError::ForbiddenOperation)));

    let kept = repo.find_by_id(book_id).unwrap().unwrap();
    assert_eq!(kept.title, "title 1");
    assert_eq!(kept.author, "author 1");
    assert_eq!(kept.isbn, "isbn 1");
    assert_eq!(kept.description, "description 1");
    assert_eq!(kept.owner, owner);
}

#[test]
fn owner_update_replaces_fields_and_keeps_identity() {
    let mut repo = BookRepositoryImpl::new();
    let owner = UserId::new();
    repo.create(sample_event(7), owner.clone()).unwrap();
    let book_id = repo
        .find_all(BookListOptions { limit: 1, offset: 0 })
        .unwrap()
        .into_inner()[0]
        .id
        .clone();

    repo.update(UpdateBook {
        book_id: book_id.clone(),
        requested_user: owner.clone(),
        title: "new title".into(),
        author: "new author".into(),
        isbn: "new isbn".into(),
        description: "new description".into(),
    })
    .unwrap();

    let b = repo.find_by_id(book_id.clone()).unwrap().unwrap();
    assert_eq!(b.id, book_id);
    assert_eq!(b.owner, owner);
    assert_eq!(b.title, "new title");
    assert_eq!(b.author, "new author");
    assert_eq!(b.isbn, "new isbn");
    assert_eq!(b.description, "new description");
}

#[test]
fn create_with_taken_id_is_a_constraint_violation() {
    let mut repo = BookRepositoryImpl::new();
    let owner = UserId::new();
    let id = BookId::new();
    repo.create_with_id(sample_event(1), owner.clone(), id.clone())
        .unwrap();
    let r = repo.create_with_id(sample_event(2), owner, id);
    assert!(matches!(r, Err(AppError::SpecificOperationError(_))));
}

#[test]
fn end_to_end_create_find_delete() {
    let mut repo = BookRepositoryImpl::new();
    let owner = UserId::new();
    repo.create(
        CreateBook {
            title: "T".into(),
            author: "A".into(),
            isbn: "I".into(),
            description: "D".into(),
        },
        owner.clone(),
    )
    .unwrap();

    let all = repo
        .find_all(BookListOptions { limit: 10, offset: 0 })
        .unwrap();
    assert_eq!(all.total, 1);
    let items = all.into_inner();
    assert_eq!(items.len(), 1);
    assert_eq!(items[0].title, "T");
    assert_eq!(items[0].author, "A");
    assert_eq!(items[0].isbn, "I");
    assert_eq!(items[0].description, "D");
    let id = items[0].id.clone();

    let found = repo.find_by_id(id.clone()).unwrap().unwrap();
    assert_eq!(found.id, id);
    assert_eq!(found.title, "T");

    repo.delete(DeleteBook {
        book_id: id.clone(),
        requested_user: owner,
    })
    .unwrap();

    assert!(repo.find_by_id(id).unwrap().is_none());
}

#[test]
fn deleted_identifier_is_never_reassigned() {
    let mut repo = BookRepositoryImpl::new();
    let owner = UserId::new();
    let id = BookId::new();
    repo.create_with_id(sample_event(1), owner.clone(), id.clone())
        .unwrap();
    repo.delete(DeleteBook {
        book_id: id.clone(),
        requested_user: owner.clone(),
    })
    .unwrap();
    assert!(repo.find_by_id(id.clone()).unwrap().is_none());

    // the identifier stays assigned after the delete, so a create under it
    // is refused as a constraint violation rather than reviving the entity
    let r = repo.create_with_id(sample_event(2), owner, id.clone());
    assert!(matches!(r, Err(AppError::SpecificOperationError(_))));
    assert!(repo.find_by_id(id).unwrap().is_none());
}

#[test]
fn admin_gate_refuses_non_admins() {
    assert!(require_admin(true).is_ok());
    assert!(matches!(require_admin(false), Err(AppError::ForbiddenOperation)));
}
