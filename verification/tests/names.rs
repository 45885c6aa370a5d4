use scarf::database::Database;
use scarf::database::DatabaseLocation;
use scarf::database::index_table_name_of;
use scarf::database::main_table_name_of;
use scarf::document::Document;
use scarf::document::Id;
use scarf::codec::IndexValue;

#[derive(Clone, Debug, PartialEq)]
struct User {
    id: Id,
    email: String,
}

impl Document for User {
    fn id(&self) -> Id {
        self.id
    }

    fn id_field() -> String {
        "id".to_string()
    }

    fn index_keys() -> Vec<String> {
        vec!["email".to_string()]
    }

    fn index_vals(&self) -> Vec<(String, IndexValue)> {
        vec![("email".to_string(), IndexValue::Str(self.email.clone()))]
    }

    fn to_body(&self) -> Vec<u8> {
        let mut out = self.id.as_bytes().to_vec();
        out.extend_from_slice(self.email.as_bytes());
        out
    }

    fn from_body(bytes: &[u8]) -> Option<Self> {
        if bytes.len() < 16 {
            return None;
        }
        let id = Id::from_bytes(&bytes[..16]);
        let email = String::from_utf8(bytes[16..].to_vec()).ok()?;
        Some(User { id, email })
    }
}

fn uid(n: u8) -> Id {
    let mut b = [0u8; 16];
    b[15] = n;
    Id::from_bytes(&b)
}

#[test]
fn table_name_derivation_is_stable() {
    assert_eq!(main_table_name_of("users"), "collections/users");
    assert_eq!(index_table_name_of("users", "email"), "collections/users/index/email");
    // pure: calling it twice with the same inputs yields identical names
    assert_eq!(main_table_name_of("users"), main_table_name_of("users"));
    assert_eq!(index_table_name_of("users", "email"), index_table_name_of("users", "email"));
}

#[test]
fn distinct_names_use_distinct_tables() {
    assert_ne!(main_table_name_of("users"), main_table_name_of("groups"));
    assert_ne!(main_table_name_of("users"), index_table_name_of("users", "email"));
    assert_ne!(index_table_name_of("users", "email"), index_table_name_of("users", "name"));
    assert_ne!(index_table_name_of("users", "email"), index_table_name_of("groups", "email"));
}

#[test]
fn collection_derives_the_same_names() {
    let db = Database::open_in_memory().expect("open");
    let users = db.collection::<User>("users");
    assert_eq!(users.name(), "users");
    assert_eq!(users.main_table_name(), "collections/users");
    assert_eq!(users.index_table_name("email"), "collections/users/index/email");
    let pairs = users.index_table_names();
    assert_eq!(pairs.len(), 1);
    assert_eq!(pairs[0].0, "email");
    assert_eq!(pairs[0].1, "collections/users/index/email");
}

#[test]
fn location_constructors() {
    assert!(matches!(DatabaseLocation::memory(), DatabaseLocation::InMemory));
    match DatabaseLocation::file("/tmp/store.redb") {
        DatabaseLocation::Filesystem(p) => assert_eq!(p, "/tmp/store.redb"),
        DatabaseLocation::InMemory => panic!("wrong location"),
    }
    let db = Database::open_in_memory().expect("open");
    assert!(matches!(db.location(), DatabaseLocation::InMemory));
}

#[test]
fn id_bytes_round_trip_and_order() {
    let a = uid(1);
    let b = uid(2);
    assert_eq!(Id::from_bytes(&a.as_bytes()).as_bytes(), a.as_bytes());
    assert_eq!(Id::compare(&a.as_bytes(), &b.as_bytes()), std::cmp::Ordering::Less);
    assert_eq!(Id::compare(&b.as_bytes(), &a.as_bytes()), std::cmp::Ordering::Greater);
    assert_eq!(Id::compare(&a.as_bytes(), &a.as_bytes()), std::cmp::Ordering::Equal);
    // big-endian: the numerically larger 128-bit value sorts after
    let mut hi = [0u8; 16];
    hi[0] = 1;
    assert_eq!(Id::compare(&hi, &b.as_bytes()), std::cmp::Ordering::Greater);
    assert_eq!(Id::fixed_width(), Some(16));
    assert_eq!(Id::stored_type_name(), "scarf::Id");
}

#[test]
fn serialized_indices_match_the_encoder() {
    let u = User { id: uid(7), email: "a@x.com".to_string() };
    let pairs = u.serialized_indices();
    assert_eq!(pairs.len(), 1);
    assert_eq!(pairs[0].0, "email");
    assert_eq!(
        pairs[0].1,
        scarf::codec::encode_index_value(&IndexValue::Str("a@x.com".to_string()))
    );
}
