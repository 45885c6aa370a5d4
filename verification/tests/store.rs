use scarf::Error;
use scarf::codec::IndexValue;
use scarf::codec::encode_value;
use scarf::database::Database;
use scarf::database::delete_outcome;
use scarf::database::id_of_index_entry;
use scarf::document::Document;
use scarf::document::Id;

#[derive(Clone, Debug, PartialEq)]
struct User {
    id: Id,
    email: String,
}

impl Document for User {
    fn id(&self) -> Id {
        self.id
    }

    fn id_field() -> String {
        "id".to_string()
    }

    fn index_keys() -> Vec<String> {
        vec!["email".to_string()]
    }

    fn index_vals(&self) -> Vec<(String, IndexValue)> {
        vec![("email".to_string(), IndexValue::Str(self.email.clone()))]
    }

    fn to_body(&self) -> Vec<u8> {
        let mut out = self.id.as_bytes().to_vec();
        out.extend_from_slice(self.email.as_bytes());
        out
    }

    fn from_body(bytes: &[u8]) -> Option<Self> {
        if bytes.len() < 16 {
            return None;
        }
        let id = Id::from_bytes(&bytes[..16]);
        let email = String::from_utf8(bytes[16..].to_vec()).ok()?;
        Some(User { id, email })
    }
}

fn uid(n: u8) -> Id {
    let mut b = [0u8; 16];
    b[15] = n;
    Id::from_bytes(&b)
}

#[test]
fn write_then_read_by_key_and_index() {
    // open an in-memory store; collection "users" indexed by "email";
    // write U1 with email a@x.com; commit; read it back both ways.
    let db = Database::open_in_memory().expect("open");
    let users = db.collection::<User>("users");
    let u1 = User { id: uid(1), email: "a@x.com".to_string() };

    let txn = db.writer().expect("writer");
    users.insert(&txn, &u1).expect("insert");
    txn.commit().expect("commit");

    let reader = db.reader().expect("reader");
    let by_key = users.get(&reader, &uid(1)).expect("get");
    assert_eq!(by_key, Some(u1.clone()));
    let by_index = users
        .get_by_index(&reader, "email", &IndexValue::Str("a@x.com".to_string()))
        .expect("get_by_index");
    assert_eq!(by_index, Some(u1));
    let miss = users
        .get_by_index(&reader, "email", &IndexValue::Str("b@x.com".to_string()))
        .expect("get_by_index");
    assert_eq!(miss, None);
}

#[test]
fn last_write_wins_for_one_key() {
    // two different documents with the same primary key, written in
    // sequence within separate committed transactions: a later read sees
    // the second body, never a mix.
    let db = Database::open_in_memory().expect("open");
    let users = db.collection::<User>("users");
    let d1 = User { id: uid(9), email: "first@x.com".to_string() };
    let d2 = User { id: uid(9), email: "second@x.com".to_string() };

    let t1 = db.writer().expect("writer");
    users.insert(&t1, &d1).expect("insert");
    t1.commit().expect("commit");

    let t2 = db.writer().expect("writer");
    users.insert(&t2, &d2).expect("insert");
    t2.commit().expect("commit");

    let reader = db.reader().expect("reader");
    assert_eq!(users.get(&reader, &uid(9)).expect("get"), Some(d2));
}

#[test]
fn snapshot_isolation_for_earlier_reader() {
    // begin write T1 and insert U2; begin reader R1 before committing T1;
    // commit T1; R1 still does not see U2, while a fresh R2 does.
    let db = Database::open_in_memory().expect("open");
    let users = db.collection::<User>("users");
    let u2 = User { id: uid(2), email: "u2@x.com".to_string() };

    let t1 = db.writer().expect("writer");
    users.insert(&t1, &u2).expect("insert");
    let r1 = db.reader().expect("reader");
    t1.commit().expect("commit");

    assert_eq!(users.get(&r1, &uid(2)).expect("get"), None);
    let r2 = db.reader().expect("reader");
    assert_eq!(users.get(&r2, &uid(2)).expect("get"), Some(u2));
}

#[test]
fn commit_demands_exclusive_ownership() {
    // a second live reference makes commit fail with the shared-ownership
    // violation; after it is gone, finalization succeeds.
    let db = Database::open_in_memory().expect("open");
    let users = db.collection::<User>("users");
    let u = User { id: uid(3), email: "u3@x.com".to_string() };

    let t1 = db.writer().expect("writer");
    assert!(t1.is_write());
    users.insert(&t1, &u).expect("insert");
    let t2 = t1.clone();
    match t1.commit() {
        Err(Error::ArcReferences(strong, _weak)) => assert!(strong >= 2),
        other => panic!("expected the shared-ownership violation, got {other:?}"),
    }
    // the transaction stayed open: the surviving reference still works and
    // the retry succeeds.
    users.insert(&t2, &u).expect("insert after failed commit");
    t2.commit().expect("commit after the alias is gone");

    let reader = db.reader().expect("reader");
    assert_eq!(users.get(&reader, &uid(3)).expect("get"), Some(u));
}

#[test]
fn abort_demands_exclusive_ownership_and_discards() {
    let db = Database::open_in_memory().expect("open");
    let users = db.collection::<User>("users");
    let u = User { id: uid(4), email: "u4@x.com".to_string() };

    let t1 = db.writer().expect("writer");
    users.insert(&t1, &u).expect("insert");
    let t2 = t1.clone();
    assert!(matches!(t1.abort(), Err(Error::ArcReferences(_, _))));
    t2.abort().expect("abort once sole owner");

    let reader = db.reader().expect("reader");
    assert_eq!(users.get(&reader, &uid(4)).expect("get"), None, "aborted writes are discarded");
}

#[test]
fn close_demands_exclusive_ownership() {
    let db = Database::open_in_memory().expect("open");
    let r1 = db.reader().expect("reader");
    assert!(!r1.is_write());
    let r2 = r1.clone();
    assert!(matches!(r1.close(), Err(Error::ArcReferences(_, _))));
    r2.close().expect("close once sole owner");
}

#[test]
fn reads_before_any_write_see_an_empty_collection() {
    let db = Database::open_in_memory().expect("open");
    let users = db.collection::<User>("users");
    let reader = db.reader().expect("reader");
    assert_eq!(users.get(&reader, &uid(5)).expect("get"), None);
    assert_eq!(
        users
            .get_by_index(&reader, "email", &IndexValue::Str("a@x.com".to_string()))
            .expect("get_by_index"),
        None
    );
}

#[test]
fn delete_removes_document_and_index_entry() {
    let db = Database::open_in_memory().expect("open");
    let users = db.collection::<User>("users");
    let u = User { id: uid(6), email: "u6@x.com".to_string() };

    let t = db.writer().expect("writer");
    users.insert(&t, &u).expect("insert");
    t.commit().expect("commit");

    let t = db.writer().expect("writer");
    let removed = users.delete(&t, &uid(6)).expect("delete");
    assert_eq!(removed, Some(u));
    t.commit().expect("commit");

    let reader = db.reader().expect("reader");
    assert_eq!(users.get(&reader, &uid(6)).expect("get"), None);
    assert_eq!(
        users
            .get_by_index(&reader, "email", &IndexValue::Str("u6@x.com".to_string()))
            .expect("get_by_index"),
        None
    );
}

#[test]
fn deleting_an_absent_table_reports_unknown_table() {
    let db = Database::open_in_memory().expect("open");
    let users = db.collection::<User>("users");
    let t = db.writer().expect("writer");
    match users.delete_table(&t) {
        Err(Error::UnknownTableName(name)) => assert_eq!(name, "collections/users"),
        other => panic!("expected the unknown-table error, got {other:?}"),
    }
}

#[test]
fn deleting_an_existing_table_succeeds() {
    let db = Database::open_in_memory().expect("open");
    let users = db.collection::<User>("users");
    let u = User { id: uid(8), email: "u8@x.com".to_string() };

    let t = db.writer().expect("writer");
    users.insert(&t, &u).expect("insert");
    t.commit().expect("commit");

    let t = db.writer().expect("writer");
    users.delete_table(&t).expect("delete_table");
    t.commit().expect("commit");

    let reader = db.reader().expect("reader");
    assert_eq!(users.get(&reader, &uid(8)).expect("get"), None);
}

#[test]
fn index_entry_resolution_rule() {
    let id = uid(11);
    let sixteen = id.as_bytes().to_vec();
    assert_eq!(id_of_index_entry(&sixteen), Some(id));
    assert_eq!(id_of_index_entry(&Vec::new()), None);
    assert_eq!(id_of_index_entry(&vec![0u8; 15]), None);
    assert_eq!(id_of_index_entry(&vec![0u8; 17]), None);
}

#[test]
fn table_removal_outcome_rule() {
    assert!(delete_outcome(true, "collections/users").is_ok());
    match delete_outcome(false, "collections/users") {
        Err(Error::UnknownTableName(n)) => assert_eq!(n, "collections/users"),
        other => panic!("expected the unknown-table error, got {other:?}"),
    }
}

#[test]
fn composite_values_index_as_canonical_bytes() {
    // a composite is indexed whole as the canonical bytes of its parts:
    // the outer Bytes layer stays deterministic and collision-free
    let parts1 = [IndexValue::Str("a@x.com".to_string()), IndexValue::Int(7)];
    let parts2 = [IndexValue::Str("a@x.com".to_string()), IndexValue::Int(8)];
    let compose = |parts: &[IndexValue]| {
        let mut out = Vec::new();
        for p in parts {
            out.extend_from_slice(&encode_value(p));
        }
        IndexValue::Bytes(out)
    };
    let c1 = compose(&parts1);
    let c2 = compose(&parts2);
    assert_ne!(
        scarf::codec::encode_index_value(&c1),
        scarf::codec::encode_index_value(&c2)
    );

    let db = Database::open_in_memory().expect("open");
    let users = db.collection::<User>("users");
    let u = User { id: uid(12), email: "composite@x.com".to_string() };
    let t = db.writer().expect("writer");
    users.insert(&t, &u).expect("insert");
    t.commit().expect("commit");
    // probing the email index with a composite value simply misses
    let reader = db.reader().expect("reader");
    assert_eq!(users.get_by_index(&reader, "email", &c1).expect("get_by_index"), None);
}

#[test]
fn error_constructors_and_messages() {
    let e = Error::unknown_table("collections/ghosts");
    match &e {
        Error::UnknownTableName(n) => assert_eq!(n, "collections/ghosts"),
        other => panic!("wrong variant: {other:?}"),
    }
    assert_eq!(e.message(), "unknown table name: collections/ghosts");
    let arc = std::sync::Arc::new(17u32);
    let held = arc.clone();
    match Error::arc_refs(arc) {
        Error::ArcReferences(strong, weak) => {
            assert_eq!(strong, 2);
            assert_eq!(weak, 0);
        },
        other => panic!("wrong variant: {other:?}"),
    }
    drop(held);
    assert_eq!(
        Error::Poison("a panic".to_string()).message(),
        "lock poisoning error: a panic"
    );
    assert_eq!(
        Error::ArcReferences(2, 0).message(),
        "more than one live reference to this transaction handle"
    );
    assert_eq!(
        Error::Redb(scarf::error::EngineError::Storage("detail".to_string())).message(),
        "unhandled storage engine error"
    );
    assert_eq!(
        Error::Io("broken pipe".to_string()).message(),
        "filesystem or memory input/output error: broken pipe"
    );
}
