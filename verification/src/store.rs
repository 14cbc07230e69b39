//! Typed access to the records of one transaction, and the transaction
//! itself.

use vstd::prelude::*;
use crate::codec::{encoded, DbType};
use crate::error::ApiError;
use crate::keys::{join_key, physical_key, ToKey};

verus! {

/// `sled`'s view of a tree inside one transaction. Nothing is known of what
/// is in a value of it but what [`staged_entries`] names.
#[verifier::external_type_specification]
#[verifier::external_body]
pub struct ExTransactionalTree(sled::transaction::TransactionalTree);

/// `sled`'s failure of a read or write inside a transaction. Nothing is known
/// of what is in a value of it.
#[verifier::external_type_specification]
#[verifier::external_body]
pub struct ExUnabortableTransactionError(sled::transaction::UnabortableTransactionError);

/// `sled`'s database handle. Nothing is known of what is in a value of it.
#[verifier::external_type_specification]
#[verifier::external_body]
pub struct ExDb(sled::Db);

/// What a transaction reads under each key: the store as the transaction
/// found it, overlaid with the writes it has staged since.
pub uninterp spec fn staged_entries(tree: sled::transaction::TransactionalTree) -> Map<
    Seq<u8>,
    Seq<u8>,
>;

/// The keys that a transaction has written or deleted so far: what it reads
/// under one of them it has at hand, without asking the store.
pub uninterp spec fn staged_keys(tree: sled::transaction::TransactionalTree) -> Set<Seq<u8>>;

/// How the store failed a read or a write inside a transaction.
#[derive(Clone, Copy, Debug, PartialEq, Eq, Structural)]
enum StoreFault {
    /// The store gave the key up to another transaction.
    Conflict,
    /// The store could not read or write.
    Storage,
}

/// What the application shares between its requests.
pub struct AppState {
    pub db: sled::Db,
    pub oauth_client_id: String,
    pub oauth_client_secrets: String,
}

/// The handle through which one transaction reads and writes records.
pub struct DbHelper<'a> {
    tree: &'a sled::transaction::TransactionalTree,
}

impl<'a> View for DbHelper<'a> {
    type V = Map<Seq<u8>, Seq<u8>>;

    closed spec fn view(&self) -> Map<Seq<u8>, Seq<u8>> {
        staged_entries(*self.tree)
    }
}

impl<'a> DbHelper<'a> {
    /// The physical keys that this transaction has written or deleted so
    /// far. A read or write under one of them cannot fail.
    pub closed spec fn written(&self) -> Set<Seq<u8>> {
        staged_keys(*self.tree)
    }
}

/// Tells the two failures of `sled` inside a transaction apart.
#[verifier::external_body]
fn fault_of(error: sled::transaction::UnabortableTransactionError) -> StoreFault {
    match error {
        sled::transaction::UnabortableTransactionError::Conflict => StoreFault::Conflict,
        sled::transaction::UnabortableTransactionError::Storage(_) => StoreFault::Storage,
    }
}

/// What reading the record of kind `V` under `key` gives from `entries`,
/// where the read itself does not fail: nothing where the key is absent, the record
/// where its bytes decode, and a failure where they do not.
pub open spec fn record_at<V: DbType>(entries: Map<Seq<u8>, Seq<u8>>, key: Seq<u8>) -> Result<
    Option<V::V>,
    ApiError,
> {
    let at = physical_key(V::kind(), key);
    if !entries.contains_key(at) {
        Ok(None)
    } else {
        match V::unpacked(entries[at]) {
            Some(v) => Ok(Some(v)),
            None => Err(ApiError::DeserializeFailed),
        }
    }
}

/// What reading a record that must exist gives: as [`record_at`], with a
/// failure of its own where the key is absent.
pub open spec fn present_at<V: DbType>(entries: Map<Seq<u8>, Seq<u8>>, key: Seq<u8>) -> Result<
    V::V,
    ApiError,
> {
    match record_at::<V>(entries, key) {
        Ok(Some(v)) => Ok(v),
        Ok(None) => Err(ApiError::NotFound),
        Err(e) => Err(e),
    }
}

/// The entries after the record `v` of kind `V` is written under `key`.
pub open spec fn with_record<V: DbType>(
    entries: Map<Seq<u8>, Seq<u8>>,
    key: Seq<u8>,
    v: V::V,
) -> Map<Seq<u8>, Seq<u8>>
    recommends
        encoded::<V>(v) is Some,
{
    entries.insert(physical_key(V::kind(), key), encoded::<V>(v).unwrap())
}

/// The entries after the record of kind `V` under `key` is deleted.
pub open spec fn without_record<V: DbType>(entries: Map<Seq<u8>, Seq<u8>>, key: Seq<u8>) -> Map<
    Seq<u8>,
    Seq<u8>,
> {
    entries.remove(physical_key(V::kind(), key))
}

/// A record that was written is read back as the same record.
pub proof fn lemma_read_your_writes<V: DbType>(
    entries: Map<Seq<u8>, Seq<u8>>,
    key: Seq<u8>,
    v: V::V,
)
    requires
        encoded::<V>(v) is Some,
    ensures
        record_at::<V>(with_record::<V>(entries, key, v), key) matches Ok(Some(w)) && V::same(v, w),
        present_at::<V>(with_record::<V>(entries, key, v), key) matches Ok(w) && V::same(v, w),
{
}

/// A record that was deleted is read as absent.
pub proof fn lemma_deleted_is_absent<V: DbType>(entries: Map<Seq<u8>, Seq<u8>>, key: Seq<u8>)
    ensures
        record_at::<V>(without_record::<V>(entries, key), key) == Ok::<Option<V::V>, ApiError>(
            None,
        ),
        present_at::<V>(without_record::<V>(entries, key), key) == Err::<V::V, ApiError>(
            ApiError::NotFound,
        ),
{
}

/// A write or a deletion under one physical key leaves what is read under
/// every other physical key as it was.
pub proof fn lemma_writes_are_local<V: DbType, W: DbType>(
    entries: Map<Seq<u8>, Seq<u8>>,
    key: Seq<u8>,
    v: V::V,
    other: Seq<u8>,
)
    requires
        physical_key(V::kind(), key) != physical_key(W::kind(), other),
    ensures
        record_at::<W>(with_record::<V>(entries, key, v), other) == record_at::<W>(entries, other),
        record_at::<W>(without_record::<V>(entries, key), other) == record_at::<W>(entries, other),
{
}

impl<'a> DbHelper<'a> {
    /// Calls `TransactionalTree::get`, which answers from the writes of the
    /// transaction before it asks the store. On success the answer is what
    /// the transaction holds under `key`; it can fail only under a key that
    /// the transaction has not written or deleted.
    #[verifier::external_body]
    fn fetch(&self, key: &Vec<u8>) -> (r: Result<
        Option<Vec<u8>>,
        sled::transaction::UnabortableTransactionError,
    >)
        ensures
            match r {
                Ok(Some(bytes)) => staged_entries(*self.tree).contains_key(key@) && staged_entries(
                    *self.tree,
                )[key@] == bytes@,
                Ok(None) => !staged_entries(*self.tree).contains_key(key@),
                Err(_) => !staged_keys(*self.tree).contains(key@),
            },
    {
        self.tree.get(key).map(|found| found.map(|bytes| bytes.to_vec()))
    }

    /// Calls `TransactionalTree::insert`, which reads the key first, as
    /// `get` does: where that read fails, nothing is staged.
    #[verifier::external_body]
    fn stage(&mut self, key: Vec<u8>, value: Vec<u8>) -> (r: Result<
        (),
        sled::transaction::UnabortableTransactionError,
    >)
        ensures
            r is Ok ==> staged_entries(*final(self).tree) == staged_entries(
                *old(self).tree,
            ).insert(key@, value@),
            r is Ok ==> staged_keys(*final(self).tree) == staged_keys(*old(self).tree).insert(
                key@,
            ),
            r is Err ==> staged_entries(*final(self).tree) == staged_entries(*old(self).tree),
            r is Err ==> staged_keys(*final(self).tree) == staged_keys(*old(self).tree),
            r is Err ==> !staged_keys(*old(self).tree).contains(key@),
    {
        self.tree.insert(key, value).map(|_| ())
    }

    /// Calls `TransactionalTree::remove`, which reads the key first, as
    /// `get` does, and stages the deletion whether or not that read fails.
    #[verifier::external_body]
    fn unstage(&mut self, key: Vec<u8>) -> (r: Result<
        (),
        sled::transaction::UnabortableTransactionError,
    >)
        ensures
            staged_entries(*final(self).tree) == staged_entries(*old(self).tree).remove(key@),
            staged_keys(*final(self).tree) == staged_keys(*old(self).tree).insert(key@),
            r is Err ==> !staged_keys(*old(self).tree).contains(key@),
    {
        self.tree.remove(key).map(|_| ())
    }

    /// Reads the record of kind `V` under `key`. The read itself can fail
    /// only under a key that this transaction has not written or deleted.
    pub fn get<K: ToKey, V: DbType>(&self, key: &K) -> (r: Result<Option<V>, ApiError>)
        ensures
            match r {
                Ok(Some(v)) => record_at::<V>(self@, key.key_bytes()) == Ok::<
                    Option<V::V>,
                    ApiError,
                >(Some(v@)) && V::valid(v@),
                Ok(None) => record_at::<V>(self@, key.key_bytes()) == Ok::<
                    Option<V::V>,
                    ApiError,
                >(None),
                Err(e) => if e == ApiError::FetchFailed || e == ApiError::Conflict {
                    !self.written().contains(physical_key(V::kind(), key.key_bytes()))
                } else {
                    record_at::<V>(self@, key.key_bytes()) == Err::<Option<V::V>, ApiError>(e)
                },
            },
    {
        let at = join_key(V::prefix(), &key.to_key());
        match self.fetch(&at) {
            Err(e) => match fault_of(e) {
                StoreFault::Conflict => Err(ApiError::Conflict),
                StoreFault::Storage => Err(ApiError::FetchFailed),
            },
            Ok(None) => Ok(None),
            Ok(Some(bytes)) => match V::decode(bytes.as_slice()) {
                Some(v) => Ok(Some(v)),
                None => Err(ApiError::DeserializeFailed),
            },
        }
    }

    /// Reads the record of kind `V` under `key`, which has to be there.
    pub fn get_or_not_found<K: ToKey, V: DbType>(&self, key: &K) -> (r: Result<V, ApiError>)
        ensures
            match r {
                Ok(v) => present_at::<V>(self@, key.key_bytes()) == Ok::<V::V, ApiError>(v@)
                    && V::valid(v@),
                Err(e) => if e == ApiError::FetchFailed || e == ApiError::Conflict {
                    !self.written().contains(physical_key(V::kind(), key.key_bytes()))
                } else {
                    present_at::<V>(self@, key.key_bytes()) == Err::<V::V, ApiError>(e)
                },
            },
    {
        match self.get::<K, V>(key) {
            Ok(Some(v)) => Ok(v),
            Ok(None) => Err(ApiError::NotFound),
            Err(e) => Err(e),
        }
    }

    /// Writes `value` under `key`; the last write of a transaction wins. The
    /// write itself can fail only under a key that this transaction has not
    /// written or deleted before.
    pub fn insert<K: ToKey, V: DbType>(&mut self, key: &K, value: &V) -> (r: Result<(), ApiError>)
        requires
            V::valid(value@),
        ensures
            match r {
                Ok(()) => {
                    &&& encoded::<V>(value@) is Some
                    &&& final(self)@ == with_record::<V>(old(self)@, key.key_bytes(), value@)
                    &&& final(self).written() == old(self).written().insert(
                        physical_key(V::kind(), key.key_bytes()),
                    )
                },
                Err(e) => {
                    &&& final(self)@ == old(self)@
                    &&& final(self).written() == old(self).written()
                    &&& if encoded::<V>(value@) is Some {
                        &&& e == ApiError::InsertFailed || e == ApiError::Conflict
                        &&& !old(self).written().contains(
                            physical_key(V::kind(), key.key_bytes()),
                        )
                    } else {
                        e == ApiError::SerializeFailed
                    }
                },
            },
    {
        let at = join_key(V::prefix(), &key.to_key());
        let bytes = match value.encode() {
            Some(bytes) => bytes,
            None => { return Err(ApiError::SerializeFailed); },
        };
        match self.stage(at, bytes) {
            Ok(()) => Ok(()),
            Err(e) => match fault_of(e) {
                StoreFault::Conflict => Err(ApiError::Conflict),
                StoreFault::Storage => Err(ApiError::InsertFailed),
            },
        }
    }

    /// Deletes the record of kind `V` under `key`; there need be none. The
    /// deletion is staged even where it is reported as failed, which can
    /// happen only under a key that this transaction has not written or
    /// deleted before.
    pub fn remove<K: ToKey, V: DbType>(&mut self, key: &K) -> (r: Result<(), ApiError>)
        ensures
            final(self)@ == without_record::<V>(old(self)@, key.key_bytes()),
            final(self).written() == old(self).written().insert(
                physical_key(V::kind(), key.key_bytes()),
            ),
            match r {
                Ok(()) => true,
                Err(e) => {
                    &&& e == ApiError::RemoveFailed || e == ApiError::Conflict
                    &&& !old(self).written().contains(physical_key(V::kind(), key.key_bytes()))
                },
            },
    {
        let at = join_key(V::prefix(), &key.to_key());
        match self.unstage(at) {
            Ok(()) => Ok(()),
            Err(e) => match fault_of(e) {
                StoreFault::Conflict => Err(ApiError::Conflict),
                StoreFault::Storage => Err(ApiError::RemoveFailed),
            },
        }
    }
}

/// Calls `Transactional::transaction` on the tree of `db`, with an operation
/// that never asks for another try, so that it runs once. A success is the
/// operation's own, committed. A failure is the operation's own, its writes
/// dropped; or, as `None`, the store's, which could not commit what the
/// operation had staged when it succeeded.
#[verifier::external_body]
fn transact<F, R>(db: &sled::Db, operation: F) -> (r: Result<R, Option<ApiError>>) where
    F: Fn(DbHelper<'_>) -> Result<R, ApiError>,

    requires
        forall|helper: DbHelper<'_>| operation.requires((helper,)),
    ensures
        match r {
            Ok(answer) => exists|helper: DbHelper<'_>|
                operation.ensures((helper,), Ok::<R, ApiError>(answer)),
            Err(Some(e)) => exists|helper: DbHelper<'_>|
                operation.ensures((helper,), Err::<R, ApiError>(e)),
            Err(None) => exists|helper: DbHelper<'_>, answer: R|
                operation.ensures((helper,), Ok::<R, ApiError>(answer)),
        },
{
    db.transaction(
        |tree|
            operation(DbHelper { tree }).map_err(
                sled::transaction::ConflictableTransactionError::Abort,
            ),
    ).map_err(
        |e|
            match e {
                sled::transaction::TransactionError::Abort(e) => Some(e),
                sled::transaction::TransactionError::Storage(_) => None,
            },
    )
}

/// What a transaction hands back for `operation`: a result of the
/// operation; or, where the operation succeeded and the store could not
/// commit what it had staged, the store's failure.
pub open spec fn handed_back<F, R>(operation: F, r: Result<R, ApiError>) -> bool where
    F: Fn(DbHelper<'_>) -> Result<R, ApiError>,
{
    match r {
        Ok(_) => exists|helper: DbHelper<'_>| operation.ensures((helper,), r),
        Err(e) => (exists|helper: DbHelper<'_>| operation.ensures((helper,), r)) || (e
            == ApiError::CommitFailed && exists|helper: DbHelper<'_>, answer: R|
            operation.ensures((helper,), Ok::<R, ApiError>(answer))),
    }
}

/// Runs `operation` as one transaction of `db`: what it staged is committed
/// if it succeeds and dropped if it fails. The operation runs once, and no
/// lost race makes it run again. Its own failure is handed back as it is. A
/// failure of the store to commit what a successful operation staged comes
/// back as a storage failure of its own.
pub fn with_transaction<F, R>(db: &sled::Db, operation: F) -> (r: Result<R, ApiError>) where
    F: Fn(DbHelper<'_>) -> Result<R, ApiError>,

    requires
        forall|helper: DbHelper<'_>| operation.requires((helper,)),
    ensures
        handed_back(operation, r),
{
    match transact(db, operation) {
        Ok(answer) => Ok(answer),
        Err(Some(e)) => Err(e),
        Err(None) => Err(ApiError::CommitFailed),
    }
}

/// An operation that cannot succeed has its own failure handed back: where
/// every result of `operation` is the failure `e`, so is the result of its
/// transaction. And an operation that cannot fail has no failure handed
/// back but the store's failure to commit.
pub proof fn lemma_own_failure_comes_back<F, R>(
    operation: F,
    r: Result<R, ApiError>,
    e: ApiError,
) where F: Fn(DbHelper<'_>) -> Result<R, ApiError>,

    requires
        handed_back(operation, r),
    ensures
        (forall|helper: DbHelper<'_>, end: Result<R, ApiError>|
            operation.ensures((helper,), end) ==> end == Err::<R, ApiError>(e)) ==> r == Err::<
            R,
            ApiError,
        >(e),
        (forall|helper: DbHelper<'_>, end: Result<R, ApiError>|
            operation.ensures((helper,), end) ==> end is Ok) ==> r is Ok || r == Err::<
            R,
            ApiError,
        >(ApiError::CommitFailed),
{
}

} // verus!
