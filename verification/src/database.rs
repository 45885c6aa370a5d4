//! The database handle, the transaction lifecycle and the typed collection
//! view.
//!
//! A `Database` owns one engine instance and is the factory for
//! transactions and collections.  A `Transaction` wraps one engine
//! transaction under shared ownership; finalizing it (commit, abort or
//! close) demands exclusive ownership and fails with the shared-ownership
//! violation while other live references exist.  A `Collection` derives the
//! physical table names for a document type's main store and each declared
//! secondary index, and performs single-document reads and writes under a
//! caller-supplied transaction.

use vstd::prelude::*;
use vstd::pervasive::unreached;
use vstd::string::StringExecFns;
use redb::ReadableDatabase;
use crate::codec::IndexValue;
use crate::codec::encode_index_value;
use crate::document::Document;
use crate::document::Id;
use crate::error::EngineError;
use crate::error::Error;
use crate::error::arc_strong_count;
use crate::error::arc_weak_count;

verus! {

#[verifier::external_type_specification]
#[verifier::external_body]
pub struct ExReadTransaction(redb::ReadTransaction);

#[verifier::external_type_specification]
#[verifier::external_body]
pub struct ExWriteTransaction(redb::WriteTransaction);

#[verifier::external_type_specification]
#[verifier::external_body]
#[verifier::reject_recursive_types(T)]
pub struct ExMutex<T: ?Sized>(std::sync::Mutex<T>);

#[verifier::external_type_specification]
#[verifier::external_body]
#[verifier::reject_recursive_types(T)]
pub struct ExRwLock<T: ?Sized>(std::sync::RwLock<T>);

/// The engine instance under its handle-level read-write lock.  The
/// engine's own type cannot be declared here, so the whole shared handle
/// lives in one opaque field.
#[verifier::external_body]
pub struct Engine {
    inner: std::sync::Arc<std::sync::RwLock<redb::Database>>,
}

impl Clone for Engine {
    /// Relies on `Arc::clone` from std: a new shared handle to the same
    /// engine instance.
    #[verifier::external_body]
    fn clone(&self) -> (r: Engine) {
        Engine { inner: self.inner.clone() }
    }
}

/// Relies on `redb::Database::create`: opens or creates the backing store
/// at the given filesystem path.
#[verifier::external_body]
fn engine_create(path: &str) -> (r: Result<Engine, Error>)
    ensures
        r matches Err(e) ==> e is Redb,
{
    match redb::Database::create(path) {
        Ok(db) => Ok(Engine { inner: std::sync::Arc::new(std::sync::RwLock::new(db)) }),
        Err(e) => Err(Error::Redb(EngineError::Database(e.to_string()))),
    }
}

/// Relies on `redb::Builder::create_with_backend` with
/// `redb::backends::InMemoryBackend`: a volatile store with no persistence.
#[verifier::external_body]
fn engine_create_in_memory() -> (r: Result<Engine, Error>)
    ensures
        r matches Err(e) ==> e is Redb,
{
    match redb::Database::builder().create_with_backend(redb::backends::InMemoryBackend::new()) {
        Ok(db) => Ok(Engine { inner: std::sync::Arc::new(std::sync::RwLock::new(db)) }),
        Err(e) => Err(Error::Redb(EngineError::Database(e.to_string()))),
    }
}

/// Relies on `redb::Database::begin_read`: an immediately consistent
/// snapshot, isolated from writes committed after this call.
#[verifier::external_body]
fn begin_read_txn(engine: &Engine) -> (r: Result<redb::ReadTransaction, Error>)
    ensures
        r matches Err(e) ==> e is Redb || e is Poison,
{
    let guard = match engine.inner.read() {
        Ok(g) => g,
        Err(e) => return Err(Error::Poison(e.to_string())),
    };
    match guard.begin_read() {
        Ok(t) => Ok(t),
        Err(e) => Err(Error::Redb(EngineError::Transaction(e.to_string()))),
    }
}

/// Relies on `redb::Database::begin_write`: the engine's single live write
/// transaction, serialized with all other writers.
#[verifier::external_body]
fn begin_write_txn(engine: &Engine) -> (r: Result<redb::WriteTransaction, Error>)
    ensures
        r matches Err(e) ==> e is Redb || e is Poison,
{
    let guard = match engine.inner.read() {
        Ok(g) => g,
        Err(e) => return Err(Error::Poison(e.to_string())),
    };
    match guard.begin_write() {
        Ok(t) => Ok(t),
        Err(e) => Err(Error::Redb(EngineError::Transaction(e.to_string()))),
    }
}

/// Relies on `redb::WriteTransaction::open_table` and `redb::Table::insert`
/// with byte-slice keys and values: creates the table on first write and
/// maps the key to the value, replacing any prior mapping for that key.
/// `redb::TableDefinition::new` demands a non-empty table name.
#[verifier::external_body]
fn table_insert(
    txn: &std::sync::Arc<std::sync::Mutex<redb::WriteTransaction>>,
    table: &str,
    key: &[u8],
    value: &[u8],
) -> (r: Result<(), Error>)
    requires
        table@.len() > 0,
    ensures
        r matches Err(e) ==> e is Redb || e is Poison,
{
    let guard = match txn.lock() {
        Ok(g) => g,
        Err(e) => return Err(Error::Poison(e.to_string())),
    };
    let mut t = match guard.open_table(redb::TableDefinition::<&[u8], &[u8]>::new(table)) {
        Ok(t) => t,
        Err(e) => return Err(Error::Redb(EngineError::Table(e.to_string()))),
    };
    let r = match t.insert(key, value) {
        Ok(_) => Ok(()),
        Err(e) => Err(Error::Redb(EngineError::Storage(e.to_string()))),
    };
    drop(t);
    r
}

/// Relies on `redb::WriteTransaction::open_table` and `redb::Table::get`:
/// the value this transaction maps the key to, `None` when absent.  In a
/// write transaction `open_table` creates an absent table as a side
/// effect, so a table never yet created reads as empty here too.
/// `redb::TableDefinition::new` demands a non-empty table name.
#[verifier::external_body]
fn table_get_write(
    txn: &std::sync::Arc<std::sync::Mutex<redb::WriteTransaction>>,
    table: &str,
    key: &[u8],
) -> (r: Result<Option<Vec<u8>>, Error>)
    requires
        table@.len() > 0,
    ensures
        r matches Err(e) ==> e is Redb || e is Poison,
{
    let guard = match txn.lock() {
        Ok(g) => g,
        Err(e) => return Err(Error::Poison(e.to_string())),
    };
    let t = match guard.open_table(redb::TableDefinition::<&[u8], &[u8]>::new(table)) {
        Ok(t) => t,
        Err(e) => return Err(Error::Redb(EngineError::Table(e.to_string()))),
    };
    let r = match redb::ReadableTable::get(&t, key) {
        Ok(v) => Ok(v.map(|g| g.value().to_vec())),
        Err(e) => Err(Error::Redb(EngineError::Storage(e.to_string()))),
    };
    drop(t);
    r
}

/// Relies on `redb::WriteTransaction::open_table` and `redb::Table::remove`:
/// unmaps the key, returning the prior value if one was present.
/// `redb::TableDefinition::new` demands a non-empty table name.
#[verifier::external_body]
fn table_remove(
    txn: &std::sync::Arc<std::sync::Mutex<redb::WriteTransaction>>,
    table: &str,
    key: &[u8],
) -> (r: Result<Option<Vec<u8>>, Error>)
    requires
        table@.len() > 0,
    ensures
        r matches Err(e) ==> e is Redb || e is Poison,
{
    let guard = match txn.lock() {
        Ok(g) => g,
        Err(e) => return Err(Error::Poison(e.to_string())),
    };
    let mut t = match guard.open_table(redb::TableDefinition::<&[u8], &[u8]>::new(table)) {
        Ok(t) => t,
        Err(e) => return Err(Error::Redb(EngineError::Table(e.to_string()))),
    };
    let r = match t.remove(key) {
        Ok(v) => Ok(v.map(|g| g.value().to_vec())),
        Err(e) => Err(Error::Redb(EngineError::Storage(e.to_string()))),
    };
    drop(t);
    r
}

/// Relies on `redb::ReadTransaction::open_table` and
/// `redb::ReadOnlyTable::get`: the value the snapshot maps the key to;
/// a table absent from the snapshot reads as empty.
/// `redb::TableDefinition::new` demands a non-empty table name.
#[verifier::external_body]
fn table_get_read(
    txn: &std::sync::Arc<std::sync::RwLock<redb::ReadTransaction>>,
    table: &str,
    key: &[u8],
) -> (r: Result<Option<Vec<u8>>, Error>)
    requires
        table@.len() > 0,
    ensures
        r matches Err(e) ==> e is Redb || e is Poison,
{
    let guard = match txn.read() {
        Ok(g) => g,
        Err(e) => return Err(Error::Poison(e.to_string())),
    };
    let t = match guard.open_table(redb::TableDefinition::<&[u8], &[u8]>::new(table)) {
        Ok(t) => t,
        Err(redb::TableError::TableDoesNotExist(_)) => return Ok(None),
        Err(e) => return Err(Error::Redb(EngineError::Table(e.to_string()))),
    };
    let r = match t.get(key) {
        Ok(v) => Ok(v.map(|g| g.value().to_vec())),
        Err(e) => Err(Error::Redb(EngineError::Storage(e.to_string()))),
    };
    drop(t);
    r
}

/// Relies on `redb::WriteTransaction::delete_table`: removes the whole
/// table, reporting whether it existed.
/// `redb::TableDefinition::new` demands a non-empty table name.
#[verifier::external_body]
fn table_delete(
    txn: &std::sync::Arc<std::sync::Mutex<redb::WriteTransaction>>,
    table: &str,
) -> (r: Result<bool, Error>)
    requires
        table@.len() > 0,
    ensures
        r matches Err(e) ==> e is Redb || e is Poison,
{
    let guard = match txn.lock() {
        Ok(g) => g,
        Err(e) => return Err(Error::Poison(e.to_string())),
    };
    match guard.delete_table(redb::TableDefinition::<&[u8], &[u8]>::new(table)) {
        Ok(existed) => Ok(existed),
        Err(e) => Err(Error::Redb(EngineError::Table(e.to_string()))),
    }
}

/// Relies on `redb::WriteTransaction::commit`: makes every table write of
/// this transaction durable and visible atomically, or none of them.
#[verifier::external_body]
fn commit_raw(txn: redb::WriteTransaction) -> (r: Result<(), Error>)
    ensures
        r matches Err(e) ==> e is Redb,
{
    match txn.commit() {
        Ok(()) => Ok(()),
        Err(e) => Err(Error::Redb(EngineError::Commit(e.to_string()))),
    }
}

/// Relies on `redb::WriteTransaction::abort`: discards every table write
/// made under this transaction.
#[verifier::external_body]
fn abort_raw(txn: redb::WriteTransaction) -> (r: Result<(), Error>)
    ensures
        r matches Err(e) ==> e is Redb,
{
    match txn.abort() {
        Ok(()) => Ok(()),
        Err(e) => Err(Error::Redb(EngineError::Storage(e.to_string()))),
    }
}

/// Relies on `redb::ReadTransaction::close`: releases the read snapshot.
#[verifier::external_body]
fn close_raw(txn: redb::ReadTransaction) -> (r: Result<(), Error>)
    ensures
        r matches Err(e) ==> e is Redb,
{
    match txn.close() {
        Ok(()) => Ok(()),
        Err(e) => Err(Error::Redb(EngineError::Transaction(e.to_string()))),
    }
}

/// The outcome of trying to reclaim exclusive ownership of a shared
/// transaction handle: sole ownership of the engine transaction, continued
/// aliasing with the observed strong and weak counts, or a poisoned guard.
pub enum Reclaim<S, H> {
    Sole(S),
    Aliased(H, usize, usize),
    Poisoned(String),
}

/// Relies on `Arc::try_unwrap` from std: the inner value when this handle
/// is the sole strong owner, the untouched handle back otherwise.
#[verifier::external_body]
fn arc_try_unwrap<T>(arc: std::sync::Arc<T>) -> (r: Result<T, std::sync::Arc<T>>)
    ensures
        match r {
            Ok(t) => t == arc,
            Err(e) => e == arc,
        },
{
    std::sync::Arc::try_unwrap(arc)
}

/// Relies on `Mutex::into_inner` from std: the inner value, or the
/// poisoning report when a prior panic left the lock poisoned.
#[verifier::external_body]
fn mutex_into_inner<T>(m: std::sync::Mutex<T>) -> (r: Result<T, String>) {
    match m.into_inner() {
        Ok(t) => Ok(t),
        Err(e) => Err(e.to_string()),
    }
}

/// Relies on `RwLock::into_inner` from std: the inner value, or the
/// poisoning report when a prior panic left the lock poisoned.
#[verifier::external_body]
fn rwlock_into_inner<T>(m: std::sync::RwLock<T>) -> (r: Result<T, String>) {
    match m.into_inner() {
        Ok(t) => Ok(t),
        Err(e) => Err(e.to_string()),
    }
}

/// Tries to reclaim exclusive ownership of a shared write handle: the
/// observed reference counts are taken first, then the handle is unwrapped
/// only if it is the sole strong owner.
fn reclaim_write(arc: std::sync::Arc<std::sync::Mutex<redb::WriteTransaction>>) -> (r: Reclaim<
    redb::WriteTransaction,
    std::sync::Arc<std::sync::Mutex<redb::WriteTransaction>>,
>) {
    let s = arc_strong_count(&arc);
    let w = arc_weak_count(&arc);
    match arc_try_unwrap(arc) {
        Ok(m) => match mutex_into_inner(m) {
            Ok(t) => Reclaim::Sole(t),
            Err(msg) => Reclaim::Poisoned(msg),
        },
        Err(a) => Reclaim::Aliased(a, s, w),
    }
}

/// Tries to reclaim exclusive ownership of a shared read handle, as
/// [`reclaim_write`] does for write handles.
fn reclaim_read(arc: std::sync::Arc<std::sync::RwLock<redb::ReadTransaction>>) -> (r: Reclaim<
    redb::ReadTransaction,
    std::sync::Arc<std::sync::RwLock<redb::ReadTransaction>>,
>) {
    let s = arc_strong_count(&arc);
    let w = arc_weak_count(&arc);
    match arc_try_unwrap(arc) {
        Ok(m) => match rwlock_into_inner(m) {
            Ok(t) => Reclaim::Sole(t),
            Err(msg) => Reclaim::Poisoned(msg),
        },
        Err(a) => Reclaim::Aliased(a, s, w),
    }
}

/// Finalization demands exclusive ownership.  A handle that could not be
/// reclaimed yields the shared-ownership violation with the observed
/// reference counts, or the poisoning error; the engine transaction is
/// never touched, so the transaction stays unfinalized and a retry after
/// the other references are dropped can succeed.
pub fn reclaim_failure<S, H>(rec: Reclaim<S, H>) -> (r: Error)
    requires
        !(rec is Sole),
    ensures
        rec matches Reclaim::Aliased(_, s, w) ==> r == Error::ArcReferences(s, w),
        rec matches Reclaim::Poisoned(m) ==> r matches Error::Poison(p) && p@ == m@,
{
    match rec {
        Reclaim::Sole(_) => unreached(),
        Reclaim::Aliased(_, s, w) => Error::ArcReferences(s, w),
        Reclaim::Poisoned(m) => Error::Poison(m),
    }
}

/// Where durable state lives: in memory, or in a file on disk.
#[derive(Debug, PartialEq, Eq)]
pub enum DatabaseLocation {
    InMemory,
    Filesystem(String),
}

/// Two locations naming the same place.
pub open spec fn same_location(a: DatabaseLocation, b: DatabaseLocation) -> bool {
    match (a, b) {
        (DatabaseLocation::InMemory, DatabaseLocation::InMemory) => true,
        (DatabaseLocation::Filesystem(p), DatabaseLocation::Filesystem(q)) => p@ == q@,
        _ => false,
    }
}

impl Clone for DatabaseLocation {
    fn clone(&self) -> (r: DatabaseLocation)
        ensures
            same_location(*self, r),
    {
        match self {
            DatabaseLocation::InMemory => DatabaseLocation::InMemory,
            DatabaseLocation::Filesystem(p) => DatabaseLocation::Filesystem(p.clone()),
        }
    }
}

impl DatabaseLocation {
    /// The volatile location with no persistence.
    pub fn memory() -> (r: DatabaseLocation)
        ensures
            r is InMemory,
    {
        DatabaseLocation::InMemory
    }

    /// The durable location at the given filesystem path.
    pub fn file(path: &str) -> (r: DatabaseLocation)
        ensures
            r matches DatabaseLocation::Filesystem(p) && p@ == path@,
    {
        DatabaseLocation::Filesystem(path.to_owned())
    }
}

/// Owns one engine instance and its location; the factory for transactions
/// and collections.  Shared freely across threads.
pub struct Database {
    database: Engine,
    location: DatabaseLocation,
}

impl Database {
    /// The location this handle was opened at.
    pub closed spec fn spec_location(&self) -> DatabaseLocation {
        self.location
    }

    /// Opens or creates the backing store at the given path.
    pub fn open(path: &str) -> (r: Result<Database, Error>)
        ensures
            r matches Ok(db) ==> db.spec_location() matches DatabaseLocation::Filesystem(p)
                && p@ == path@,
            r matches Err(e) ==> e is Redb,
    {
        match engine_create(path) {
            Ok(engine) => Ok(
                Database { database: engine, location: DatabaseLocation::file(path) },
            ),
            Err(e) => Err(e),
        }
    }

    /// Creates a volatile store with no persistence.
    pub fn open_in_memory() -> (r: Result<Database, Error>)
        ensures
            r matches Ok(db) ==> db.spec_location() is InMemory,
            r matches Err(e) ==> e is Redb,
    {
        match engine_create_in_memory() {
            Ok(engine) => Ok(Database { database: engine, location: DatabaseLocation::memory() }),
            Err(e) => Err(e),
        }
    }

    /// The immutable location of this handle; no side effects.
    pub fn location(&self) -> (r: DatabaseLocation)
        ensures
            same_location(r, self.spec_location()),
    {
        self.location.clone()
    }

    pub(crate) fn db(&self) -> Engine {
        self.database.clone()
    }

    /// Begins a read transaction: an immediately consistent snapshot.
    pub fn reader(&self) -> (r: Result<Transaction, Error>)
        ensures
            r matches Ok(t) ==> t is Read,
            r matches Err(e) ==> e is Redb || e is Poison,
    {
        Transaction::reader(self)
    }

    /// Begins a write transaction, serialized with all other writers.
    pub fn writer(&self) -> (r: Result<Transaction, Error>)
        ensures
            r matches Ok(t) ==> t is Write,
            r matches Err(e) ==> e is Redb || e is Poison,
    {
        Transaction::writer(self)
    }

    /// The typed collection view bound to this handle and the given name.
    /// Pure: no I/O, never fails.
    pub fn collection<T: Document>(&self, name: &str) -> (c: Collection<T>)
        ensures
            c.spec_name() == name@,
    {
        Collection::<T>::new(self.clone(), name.to_owned())
    }
}

impl Clone for Database {
    fn clone(&self) -> (r: Database)
        ensures
            same_location(r.spec_location(), self.spec_location()),
    {
        Database { database: self.database.clone(), location: self.location.clone() }
    }
}

/// One engine transaction under shared ownership: either a read snapshot
/// or the single live write transaction.  Clones share the same underlying
/// engine transaction; finalization demands exclusive ownership.
pub enum Transaction {
    Read(std::sync::Arc<std::sync::RwLock<redb::ReadTransaction>>),
    Write(std::sync::Arc<std::sync::Mutex<redb::WriteTransaction>>),
}

impl Clone for Transaction {
    /// Relies on `Arc::clone` from std: a new shared handle to the same
    /// engine transaction.
    #[verifier::external_body]
    fn clone(&self) -> (r: Transaction)
        ensures
            r is Read <==> self is Read,
    {
        match self {
            Transaction::Read(a) => Transaction::Read(a.clone()),
            Transaction::Write(a) => Transaction::Write(a.clone()),
        }
    }
}

impl Transaction {
    pub(crate) fn reader(db: &Database) -> (r: Result<Transaction, Error>)
        ensures
            r matches Ok(t) ==> t is Read,
            r matches Err(e) ==> e is Redb || e is Poison,
    {
        let engine = db.db();
        match begin_read_txn(&engine) {
            Ok(t) => Ok(Transaction::Read(std::sync::Arc::new(rwlock_new(t)))),
            Err(e) => Err(e),
        }
    }

    pub(crate) fn writer(db: &Database) -> (r: Result<Transaction, Error>)
        ensures
            r matches Ok(t) ==> t is Write,
            r matches Err(e) ==> e is Redb || e is Poison,
    {
        let engine = db.db();
        match begin_write_txn(&engine) {
            Ok(t) => Ok(Transaction::Write(std::sync::Arc::new(mutex_new(t)))),
            Err(e) => Err(e),
        }
    }

    /// Whether this is a write transaction.
    pub fn is_write(&self) -> (r: bool)
        ensures
            r == (self is Write),
    {
        match self {
            Transaction::Write(_) => true,
            Transaction::Read(_) => false,
        }
    }

    /// Commits a write transaction: all its table writes become durable and
    /// visible together.  Demands exclusive ownership: while another live
    /// reference exists this fails with the shared-ownership violation and
    /// the transaction stays open.
    pub fn commit(self) -> (r: Result<(), Error>)
        requires
            self is Write,
        ensures
            r matches Err(e) ==> e is Redb || e is Poison || e is ArcReferences,
    {
        match self {
            Transaction::Write(arc) => match reclaim_write(arc) {
                Reclaim::Sole(t) => commit_raw(t),
                rec => Err(reclaim_failure(rec)),
            },
            Transaction::Read(_) => unreached(),
        }
    }

    /// Aborts a write transaction, discarding all its writes.  Demands
    /// exclusive ownership, as `commit` does.
    pub fn abort(self) -> (r: Result<(), Error>)
        requires
            self is Write,
        ensures
            r matches Err(e) ==> e is Redb || e is Poison || e is ArcReferences,
    {
        match self {
            Transaction::Write(arc) => match reclaim_write(arc) {
                Reclaim::Sole(t) => abort_raw(t),
                rec => Err(reclaim_failure(rec)),
            },
            Transaction::Read(_) => unreached(),
        }
    }

    /// Closes a read transaction, releasing its snapshot.  Demands
    /// exclusive ownership, as `commit` does.
    pub fn close(self) -> (r: Result<(), Error>)
        requires
            self is Read,
        ensures
            r matches Err(e) ==> e is Redb || e is Poison || e is ArcReferences,
    {
        match self {
            Transaction::Read(arc) => match reclaim_read(arc) {
                Reclaim::Sole(t) => close_raw(t),
                rec => Err(reclaim_failure(rec)),
            },
            Transaction::Write(_) => unreached(),
        }
    }
}

/// The physical table name of a collection's main store.
pub open spec fn spec_main_table_name(name: Seq<char>) -> Seq<char> {
    "collections/"@ + name
}

/// The physical table name of one secondary index of a collection.
pub open spec fn spec_index_table_name(name: Seq<char>, key: Seq<char>) -> Seq<char> {
    "collections/"@ + name + "/index/"@ + key
}

/// A name that contains no `/`, the separator of derived table names.
pub open spec fn slash_free(s: Seq<char>) -> bool {
    forall|i: int| 0 <= i < s.len() ==> s[i] != '/'
}

/// Law: table-name derivation is a pure function of the collection name
/// and the index key name alone — the same inputs always yield the same
/// physical table names, in this process or any other.
pub proof fn lemma_table_names_deterministic(
    c1: Seq<char>,
    k1: Seq<char>,
    c2: Seq<char>,
    k2: Seq<char>,
)
    requires
        c1 == c2,
        k1 == k2,
    ensures
        spec_main_table_name(c1) == spec_main_table_name(c2),
        spec_index_table_name(c1, k1) == spec_index_table_name(c2, k2),
{
}

/// Law: for slash-free collection names, distinct collections and distinct
/// index keys always live in distinct physical tables, and no main table
/// ever coincides with an index table.
pub proof fn lemma_table_names_injective(c1: Seq<char>, k1: Seq<char>, c2: Seq<char>, k2: Seq<char>)
    requires
        slash_free(c1),
        slash_free(c2),
    ensures
        spec_main_table_name(c1) == spec_main_table_name(c2) ==> c1 == c2,
        spec_index_table_name(c1, k1) == spec_index_table_name(c2, k2) ==> c1 == c2 && k1 == k2,
        spec_main_table_name(c1) != spec_index_table_name(c2, k2),
{
    reveal_strlit("collections/");
    reveal_strlit("/index/");
    let p = "collections/"@;
    let m = "/index/"@;
    if spec_main_table_name(c1) == spec_main_table_name(c2) {
        assert(c1.len() == c2.len());
        assert forall|i: int| 0 <= i < c1.len() implies c1[i] == c2[i] by {
            assert((p + c1)[12 + i] == c1[i]);
            assert((p + c2)[12 + i] == c2[i]);
        }
        assert(c1 =~= c2);
    }
    if spec_index_table_name(c1, k1) == spec_index_table_name(c2, k2) {
        let s1 = p + c1 + m + k1;
        let s2 = p + c2 + m + k2;
        if c1.len() < c2.len() {
            assert(s1[12 + c1.len() as int] == m[0]);
            assert(s2[12 + c1.len() as int] == c2[c1.len() as int]);
            assert(false);
        }
        if c2.len() < c1.len() {
            assert(s2[12 + c2.len() as int] == m[0]);
            assert(s1[12 + c2.len() as int] == c1[c2.len() as int]);
            assert(false);
        }
        assert forall|i: int| 0 <= i < c1.len() implies c1[i] == c2[i] by {
            assert(s1[12 + i] == c1[i]);
            assert(s2[12 + i] == c2[i]);
        }
        assert(c1 =~= c2);
        assert(s1.len() == 19 + c1.len() + k1.len());
        assert(s2.len() == 19 + c2.len() + k2.len());
        assert(k1.len() == k2.len());
        assert forall|i: int| 0 <= i < k1.len() implies k1[i] == k2[i] by {
            assert(s1 == (p + c1 + m) + k1);
            assert((p + c1 + m).len() == 19 + c1.len());
            assert(((p + c1 + m) + k1)[19 + c1.len() as int + i] == k1[i]);
            assert(s2 == (p + c2 + m) + k2);
            assert((p + c2 + m).len() == 19 + c2.len());
            assert(((p + c2 + m) + k2)[19 + c2.len() as int + i] == k2[i]);
        }
        assert(k1 =~= k2);
    }
    if spec_main_table_name(c1) == spec_index_table_name(c2, k2) {
        let s2 = p + c2 + m + k2;
        assert(c1.len() == c2.len() + 7 + k2.len());
        assert(s2[12 + c2.len() as int] == m[0]);
        assert((p + c1)[12 + c2.len() as int] == c1[c2.len() as int]);
        assert(false);
    }
}

/// The main table name for a collection name.
pub fn main_table_name_of(name: &str) -> (r: String)
    ensures
        r@ == spec_main_table_name(name@),
        r@.len() > 0,
{
    proof {
        reveal_strlit("collections/");
    }
    let mut s = "collections/".to_owned();
    s.append(name);
    s
}

/// The index table name for a collection name and an index key name.
pub fn index_table_name_of(name: &str, key: &str) -> (r: String)
    ensures
        r@ == spec_index_table_name(name@, key@),
        r@.len() > 0,
{
    proof {
        reveal_strlit("collections/");
        reveal_strlit("/index/");
    }
    let mut s = "collections/".to_owned();
    s.append(name);
    s.append("/index/");
    s.append(key);
    s
}

/// The derived (index key name, index table name) pairs for the given
/// collection name and index key names, keeping names and order.
pub fn index_table_names_for(name: &str, keys: &Vec<String>) -> (r: Vec<(String, String)>)
    ensures
        r@.len() == keys@.len(),
        forall|i: int|
            0 <= i < keys@.len() ==> (#[trigger] r@[i]).0@ == keys@[i]@ && r@[i].1@
                == spec_index_table_name(name@, keys@[i]@) && r@[i].1@.len() > 0,
{
    let mut r: Vec<(String, String)> = Vec::new();
    let mut i: usize = 0;
    while i < keys.len()
        invariant
            i <= keys@.len(),
            r@.len() == i,
            forall|j: int|
                0 <= j < i ==> (#[trigger] r@[j]).0@ == keys@[j]@ && r@[j].1@
                    == spec_index_table_name(name@, keys@[j]@) && r@[j].1@.len() > 0,
        decreases keys@.len() - i,
    {
        let key = keys[i].clone();
        let tname = index_table_name_of(name, keys[i].as_str());
        r.push((key, tname));
        i = i + 1;
    }
    r
}

/// The primary key an index-table entry points at: exactly the sixteen
/// stored bytes read back as an identifier, and nothing for an entry of
/// any other width.
pub fn id_of_index_entry(bytes: &Vec<u8>) -> (r: Option<Id>)
    ensures
        bytes@.len() == 16 ==> (r matches Some(id) && id@ == bytes@),
        bytes@.len() != 16 ==> r is None,
{
    if bytes.len() == 16 {
        Some(Id::from_bytes(bytes.as_slice()))
    } else {
        None
    }
}

/// What a whole-table removal reports, given the engine's answer whether
/// the table existed: success exactly when it did, and the unknown-table
/// error naming the table when it did not.
pub fn delete_outcome(existed: bool, table: &str) -> (r: Result<(), Error>)
    ensures
        existed <==> r is Ok,
        !existed ==> (r matches Err(e) && e matches Error::UnknownTableName(n) && n@ == table@),
{
    if existed {
        Ok(())
    } else {
        Err(Error::unknown_table(table))
    }
}

/// Whether two byte slices hold the same bytes.
fn bytes_eq(a: &[u8], b: &[u8]) -> (r: bool)
    ensures
        r <==> a@ == b@,
{
    if a.len() != b.len() {
        proof {
            assert(a@ != b@);
        }
        return false;
    }
    let mut i: usize = 0;
    while i < a.len()
        invariant
            i <= a@.len(),
            a@.len() == b@.len(),
            forall|j: int| 0 <= j < i ==> a@[j] == b@[j],
        decreases a@.len() - i,
    {
        if a[i] != b[i] {
            return false;
        }
        i = i + 1;
    }
    proof {
        assert(a@ =~= b@);
    }
    true
}

/// A typed view of one logical collection: the main table plus one index
/// table per declared index key.  It holds no transaction; every operation
/// takes a caller-supplied one, so one write transaction can cover the main
/// write and all index writes atomically.
pub struct Collection<T: Document> {
    database: Database,
    collection_name: String,
    doctype: core::marker::PhantomData<T>,
}

impl<T: Document> Collection<T> {
    /// The logical collection name.
    pub closed spec fn spec_name(&self) -> Seq<char> {
        self.collection_name@
    }

    pub(crate) fn new(db: Database, name: String) -> (c: Collection<T>)
        ensures
            c.spec_name() == name@,
    {
        Collection { database: db, collection_name: name, doctype: core::marker::PhantomData }
    }

    /// The logical collection name.
    pub fn name(&self) -> (r: String)
        ensures
            r@ == self.spec_name(),
    {
        self.collection_name.clone()
    }

    /// The physical table name of this collection's main store.
    pub fn main_table_name(&self) -> (r: String)
        ensures
            r@ == spec_main_table_name(self.spec_name()),
            r@.len() > 0,
    {
        main_table_name_of(self.collection_name.as_str())
    }

    /// The physical table name of one secondary index.
    pub fn index_table_name(&self, key: &str) -> (r: String)
        ensures
            r@ == spec_index_table_name(self.spec_name(), key@),
            r@.len() > 0,
    {
        index_table_name_of(self.collection_name.as_str(), key)
    }

    /// The (index key name, index table name) pairs for every index key the
    /// document type declares: each pair holds an index key name and
    /// exactly the table name derived from this collection's name and it.
    pub fn index_table_names(&self) -> (r: Vec<(String, String)>)
        ensures
            forall|i: int|
                0 <= i < r@.len() ==> (#[trigger] r@[i]).1@ == spec_index_table_name(
                    self.spec_name(),
                    r@[i].0@,
                ) && r@[i].1@.len() > 0,
    {
        index_table_names_for(self.collection_name.as_str(), &T::index_keys())
    }

    /// Writes one document under the given write transaction: the
    /// serialized body into the main table under the primary key, and one
    /// entry per declared index, keyed by the encoded index value and
    /// pointing back at the primary key.  All writes land in the one
    /// transaction, so they commit or vanish together.
    pub fn insert(&self, txn: &Transaction, doc: &T) -> (r: Result<(), Error>)
        requires
            txn is Write,
        ensures
            r matches Err(e) ==> e is Redb || e is Poison,
    {
        let arc = match txn {
            Transaction::Write(arc) => arc,
            Transaction::Read(_) => unreached(),
        };
        let id_bytes = doc.id().as_bytes();
        let body = doc.to_body();
        let main = self.main_table_name();
        match table_insert(arc, main.as_str(), id_bytes.as_slice(), body.as_slice()) {
            Ok(()) => {},
            Err(e) => {
                return Err(e);
            },
        }
        let indices = doc.serialized_indices();
        let mut i: usize = 0;
        while i < indices.len()
            decreases indices@.len() - i,
        {
            let tname = self.index_table_name(indices[i].0.as_str());
            let enc = indices[i].1.as_str();
            match table_insert(arc, tname.as_str(), enc.as_bytes(), id_bytes.as_slice()) {
                Ok(()) => {},
                Err(e) => {
                    return Err(e);
                },
            }
            i = i + 1;
        }
        Ok(())
    }

    /// Looks one document up by primary key under the given transaction.
    /// A never-written collection reads as empty; a stored body the type
    /// cannot decode also reads as absent.
    pub fn get(&self, txn: &Transaction, id: &Id) -> (r: Result<Option<T>, Error>)
        ensures
            r matches Err(e) ==> e is Redb || e is Poison,
    {
        let id_bytes = id.as_bytes();
        let main = self.main_table_name();
        let found = match txn {
            Transaction::Read(arc) => table_get_read(arc, main.as_str(), id_bytes.as_slice()),
            Transaction::Write(arc) => table_get_write(arc, main.as_str(), id_bytes.as_slice()),
        };
        match found {
            Ok(Some(body)) => Ok(T::from_body(body.as_slice())),
            Ok(None) => Ok(None),
            Err(e) => Err(e),
        }
    }

    /// Looks one document up by an index field under the given transaction:
    /// encodes the queried value exactly as `insert` encodes stored values,
    /// reads the index table for the matching primary key, then resolves it
    /// against the main table.
    pub fn get_by_index(&self, txn: &Transaction, key: &str, value: &IndexValue) -> (r: Result<
        Option<T>,
        Error,
    >)
        ensures
            r matches Err(e) ==> e is Redb || e is Poison,
    {
        let tname = self.index_table_name(key);
        let enc = encode_index_value(value);
        let found = match txn {
            Transaction::Read(arc) => table_get_read(arc, tname.as_str(), enc.as_str().as_bytes()),
            Transaction::Write(arc) => table_get_write(
                arc,
                tname.as_str(),
                enc.as_str().as_bytes(),
            ),
        };
        match found {
            Ok(Some(id_bytes)) => match id_of_index_entry(&id_bytes) {
                Some(id) => self.get(txn, &id),
                None => Ok(None),
            },
            Ok(None) => Ok(None),
            Err(e) => Err(e),
        }
    }

    /// Deletes one document by primary key under the given write
    /// transaction, removing its main-table record and every index entry
    /// that still points at it; returns the document that was removed.
    pub fn delete(&self, txn: &Transaction, id: &Id) -> (r: Result<Option<T>, Error>)
        requires
            txn is Write,
        ensures
            r matches Err(e) ==> e is Redb || e is Poison,
    {
        let arc = match txn {
            Transaction::Write(arc) => arc,
            Transaction::Read(_) => unreached(),
        };
        let doc = match self.get(txn, id) {
            Ok(Some(d)) => d,
            Ok(None) => {
                return Ok(None);
            },
            Err(e) => {
                return Err(e);
            },
        };
        let id_bytes = id.as_bytes();
        let main = self.main_table_name();
        match table_remove(arc, main.as_str(), id_bytes.as_slice()) {
            Ok(_) => {},
            Err(e) => {
                return Err(e);
            },
        }
        let indices = doc.serialized_indices();
        let mut i: usize = 0;
        while i < indices.len()
            decreases indices@.len() - i,
        {
            let tname = self.index_table_name(indices[i].0.as_str());
            let enc = indices[i].1.as_str();
            let entry = match table_get_write(arc, tname.as_str(), enc.as_bytes()) {
                Ok(v) => v,
                Err(e) => {
                    return Err(e);
                },
            };
            let points_here = match entry {
                Some(b) => bytes_eq(b.as_slice(), id_bytes.as_slice()),
                None => false,
            };
            if points_here {
                match table_remove(arc, tname.as_str(), enc.as_bytes()) {
                    Ok(_) => {},
                    Err(e) => {
                        return Err(e);
                    },
                }
            }
            i = i + 1;
        }
        Ok(Some(doc))
    }

    /// Removes this collection's main table and every index table under the
    /// given write transaction.  Reports the unknown-table error when the
    /// main table does not exist; index tables never yet written are
    /// skipped silently.
    pub fn delete_table(&self, txn: &Transaction) -> (r: Result<(), Error>)
        requires
            txn is Write,
        ensures
            r matches Err(e) ==> e is Redb || e is Poison || e is UnknownTableName,
            r matches Err(e) ==> (e matches Error::UnknownTableName(n) ==> n@
                == spec_main_table_name(self.spec_name())),
    {
        let arc = match txn {
            Transaction::Write(arc) => arc,
            Transaction::Read(_) => unreached(),
        };
        let main = self.main_table_name();
        let existed = match table_delete(arc, main.as_str()) {
            Ok(b) => b,
            Err(e) => {
                return Err(e);
            },
        };
        let tables = self.index_table_names();
        let mut i: usize = 0;
        while i < tables.len()
            invariant
                forall|j: int|
                    0 <= j < tables@.len() ==> (#[trigger] tables@[j]).1@.len() > 0,
            decreases tables@.len() - i,
        {
            match table_delete(arc, tables[i].1.as_str()) {
                Ok(_) => {},
                Err(e) => {
                    return Err(e);
                },
            }
            i = i + 1;
        }
        delete_outcome(existed, main.as_str())
    }
}

/// Relies on `Mutex::new` from std.
#[verifier::external_body]
fn mutex_new<T>(t: T) -> std::sync::Mutex<T> {
    std::sync::Mutex::new(t)
}

/// Relies on `RwLock::new` from std.
#[verifier::external_body]
fn rwlock_new<T>(t: T) -> std::sync::RwLock<T> {
    std::sync::RwLock::new(t)
}

} // verus!
