use casrepo::inmem::Repo;
use casrepo::Cas;
use casrepo::Document;
use casrepo::Error;
use casrepo::LogEntry;
use casrepo::Logging;
use casrepo::Repository;
use casrepo::RepositoryExt;
use casrepo::User;

#[test]
fn it_works() {
    let mut repo = Repo::new();
    let key = "mykey";

    let user_in = User { name: "Peter" };
    repo.create(key.to_string(), user_in).expect("should not fail");
    let mut repo = Logging::new(repo);
    let (user_out, _) = repo.find(key).expect("not found").unwrap();
    assert_eq!(user_in.name, user_out.name);

    assert!(repo.find("asdf").is_ok());
    assert!(repo.find("asdf").expect("no error").is_none());
}

#[test]
fn find_missing_is_empty_not_error() {
    let mut repo = Repo::<u32>::new();
    let r = repo.find("absent");
    assert_eq!(r, Ok(None));
}

#[test]
fn create_then_find_returns_initial_token() {
    let mut repo = Repo::<u32>::new();
    let tok = repo.create("mykey".to_string(), 41).expect("create");
    assert_eq!(tok.value(), 0);
    let (v, c) = repo.find("mykey").expect("find").expect("present");
    assert_eq!(v, 41);
    assert_eq!(c, Cas::new(0));
    assert_eq!(repo.find("missing"), Ok(None));
}

#[test]
fn create_existing_key_is_refused() {
    let mut repo = Repo::<u32>::new();
    repo.create("k".to_string(), 1).expect("create");
    let r = repo.create("k".to_string(), 2);
    assert_eq!(r, Err(Error::Cas(Cas::new(0))));
    let (v, c) = repo.find("k").expect("find").expect("present");
    assert_eq!(v, 1);
    assert_eq!(c.value(), 0);
}

#[test]
fn update_advances_token_and_commits() {
    let mut repo = Repo::<u32>::new();
    let t0 = repo.create("k".to_string(), 1).expect("create");
    let t1 = repo.update("k", 2, t0).expect("update");
    assert!(t1.value() > t0.value());
    assert_eq!(t1.value(), 1);
    let (v, c) = repo.find("k").expect("find").expect("present");
    assert_eq!(v, 2);
    assert_eq!(c, t1);
}

#[test]
fn update_with_stale_token_fails_and_changes_nothing() {
    let mut repo = Repo::<u32>::new();
    let t0 = repo.create("k".to_string(), 1).expect("create");
    let t1 = repo.update("k", 2, t0).expect("update");
    let r = repo.update("k", 3, t0);
    assert_eq!(r, Err(Error::Cas(t1)));
    let (v, c) = repo.find("k").expect("find").expect("present");
    assert_eq!(v, 2);
    assert_eq!(c, t1);
}

#[test]
fn racing_updates_exactly_one_succeeds() {
    let mut repo = Repo::<u32>::new();
    let t0 = repo.create("k".to_string(), 1).expect("create");
    let first = repo.update("k", 2, t0);
    let second = repo.update("k", 3, t0);
    assert!(first.is_ok());
    let t1 = first.unwrap();
    assert_eq!(second, Err(Error::Cas(t1)));
    let (v, _) = repo.find("k").expect("find").expect("present");
    assert_eq!(v, 2);
}

#[test]
fn update_missing_key_is_not_found() {
    let mut repo = Repo::<u32>::new();
    let r = repo.update("absent", 1, Cas::new(0));
    assert_eq!(r, Err(Error::NotFound));
}

#[test]
fn delete_with_current_token_removes() {
    let mut repo = Repo::<u32>::new();
    let t0 = repo.create("k".to_string(), 1).expect("create");
    let r = repo.delete("k", t0);
    assert_eq!(r, Ok(Some(())));
    assert_eq!(repo.find("k"), Ok(None));
}

#[test]
fn delete_missing_key_is_empty_not_error() {
    let mut repo = Repo::<u32>::new();
    let r = repo.delete("absent", Cas::new(7));
    assert_eq!(r, Ok(None));
}

#[test]
fn delete_with_stale_token_fails() {
    let mut repo = Repo::<u32>::new();
    let t0 = repo.create("k".to_string(), 1).expect("create");
    let t1 = repo.update("k", 2, t0).expect("update");
    let r = repo.delete("k", t0);
    assert_eq!(r, Err(Error::Cas(t1)));
    let (v, _) = repo.find("k").expect("find").expect("present");
    assert_eq!(v, 2);
}

#[test]
fn double_wrapped_decorator_matches_bare_backend() {
    let mut bare = Repo::<u32>::new();
    let mut wrapped = Logging::new(Logging::new(Repo::<u32>::new()));

    assert_eq!(
        bare.create("k".to_string(), 1),
        wrapped.create("k".to_string(), 1)
    );
    assert_eq!(bare.find("k"), wrapped.find("k"));
    assert_eq!(bare.find("missing"), wrapped.find("missing"));
    assert_eq!(
        bare.update("k", 2, Cas::new(0)),
        wrapped.update("k", 2, Cas::new(0))
    );
    assert_eq!(
        bare.update("k", 3, Cas::new(0)),
        wrapped.update("k", 3, Cas::new(0))
    );
    assert_eq!(
        bare.delete("k", Cas::new(5)),
        wrapped.delete("k", Cas::new(5))
    );
    assert_eq!(
        bare.delete("k", Cas::new(1)),
        wrapped.delete("k", Cas::new(1))
    );
    assert_eq!(bare.find("k"), wrapped.find("k"));
}

#[test]
fn decorator_records_every_call() {
    let mut repo = Logging::new(Repo::<u32>::new());
    repo.create("k".to_string(), 1).expect("create");
    repo.find("k").expect("find");
    repo.update("k", 2, Cas::new(0)).expect("update");
    repo.delete("k", Cas::new(1)).expect("delete");

    let log = repo.log();
    assert_eq!(log.len(), 4);
    assert!(matches!(&log[0], LogEntry::Create { key } if key == "k"));
    assert!(matches!(&log[1], LogEntry::Find { key } if key == "k"));
    assert!(
        matches!(&log[2], LogEntry::Update { key, cas } if key == "k" && *cas == Cas::new(0))
    );
    assert!(
        matches!(&log[3], LogEntry::Delete { key, cas } if key == "k" && *cas == Cas::new(1))
    );
}

#[test]
fn keyed_entity_round_trip() {
    let mut repo = Repo::<User>::new();
    let peter = User { name: "Peter" };
    let t0 = repo.create_doc(peter).expect("create_doc");
    assert_eq!(t0.value(), 0);
    let (found, c) = repo.find("Peter").expect("find").expect("present");
    assert_eq!(found.name, "Peter");
    assert_eq!(c, t0);

    let t1 = repo.update_doc(peter, t0).expect("update_doc");
    assert!(t1.value() > t0.value());

    let stale = repo.update_doc(peter, t0);
    assert_eq!(stale, Err(Error::Cas(t1)));

    let gone = repo.delete_doc(peter, t1).expect("delete_doc");
    assert_eq!(gone, Some(()));
    assert!(repo.find("Peter").expect("no error").is_none());
}

#[test]
fn empty_key_is_a_key_like_any_other() {
    let mut repo = Repo::<u32>::new();
    let t0 = repo.create(String::new(), 9).expect("create");
    assert_eq!(t0.value(), 0);
    let (v, c) = repo.find("").expect("find").expect("present");
    assert_eq!(v, 9);
    assert_eq!(c, t0);
    assert_eq!(repo.delete("", t0), Ok(Some(())));
    assert_eq!(repo.find(""), Ok(None));
}

#[test]
fn document_carries_its_token() {
    let doc = Document::new(7u32, Cas::new(3));
    assert_eq!(doc.cas(), Cas::new(3));
    assert_eq!(doc.cas().value(), 3);
    let _record = casrepo::inmem::CasDoc::new(7u32, Cas::new(0));
}
