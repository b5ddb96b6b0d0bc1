//! CRUD persistence: errors and the in-memory store.
//!
//! The store keeps named collections of items; each item has a string id.
//! Its model is the sequence of collections in the order in which they were
//! first written, each with its entries in the order in which they were
//! created.  Collection names are unique, and so are the ids inside one
//! collection.

use vstd::prelude::*;
use vstd::string::*;
use serde_json::Value;

use crate::clock::new_uuid;
use crate::json::clone_value;
use crate::keyed::{
    key_index, key_index_from, keys_unique, lemma_key_index_push, lemma_key_index_unique,
};

verus! {

// ---------------------------------------------------------------------------
// Errors
// ---------------------------------------------------------------------------

/// The category of a persistence error.
#[derive(Debug, Clone, Copy, PartialEq, Eq, Structural)]
pub enum ErrorKind {
    /// Item was not found
    NotFound,
    /// Invalid operation or parameters
    InvalidOperation,
    /// Serialization/deserialization failed
    Serialization,
    /// Underlying storage error
    Storage,
}

/// Error types for persistence operations.
#[derive(Debug)]
pub enum PersistenceError {
    NotFound { id: String },
    InvalidOperation(String),
    SerializationError(String),
    StorageError(String),
}

/// The kind of each error variant.
pub open spec fn kind_of(e: PersistenceError) -> ErrorKind {
    match e {
        PersistenceError::NotFound { .. } => ErrorKind::NotFound,
        PersistenceError::InvalidOperation(_) => ErrorKind::InvalidOperation,
        PersistenceError::SerializationError(_) => ErrorKind::Serialization,
        PersistenceError::StorageError(_) => ErrorKind::Storage,
    }
}

/// The human-readable text of an error.
pub open spec fn message_of(e: PersistenceError) -> Seq<char> {
    match e {
        PersistenceError::NotFound { id } => "Item not found: "@ + id@,
        PersistenceError::InvalidOperation(s) => "Invalid operation: "@ + s@,
        PersistenceError::SerializationError(s) => "Serialization error: "@ + s@,
        PersistenceError::StorageError(s) => "Storage error: "@ + s@,
    }
}

impl PersistenceError {
    /// Get the error kind.
    pub fn kind(&self) -> (k: ErrorKind)
        ensures
            k == kind_of(*self),
    {
        match self {
            PersistenceError::NotFound { .. } => ErrorKind::NotFound,
            PersistenceError::InvalidOperation(_) => ErrorKind::InvalidOperation,
            PersistenceError::SerializationError(_) => ErrorKind::Serialization,
            PersistenceError::StorageError(_) => ErrorKind::Storage,
        }
    }

    /// The error's text, as displayed.
    pub fn message(&self) -> (m: String)
        ensures
            m@ == message_of(*self),
    {
        let (prefix, detail) = match self {
            PersistenceError::NotFound { id } => ("Item not found: ", id),
            PersistenceError::InvalidOperation(s) => ("Invalid operation: ", s),
            PersistenceError::SerializationError(s) => ("Serialization error: ", s),
            PersistenceError::StorageError(s) => ("Storage error: ", s),
        };
        let mut m = prefix.to_owned();
        m.append(detail.as_str());
        m
    }
}

// ---------------------------------------------------------------------------
// Models
// ---------------------------------------------------------------------------

/// One collection's entries: ids with their items, in creation order.
pub type EntriesModel = Seq<(Seq<char>, Value)>;

/// The whole store: collection names with their entries, in the order in
/// which the collections were first written.
pub type StoreModel = Seq<(Seq<char>, EntriesModel)>;

/// The store's invariant: collection names are unique, and so are the ids
/// inside each collection.
pub open spec fn store_wf(v: StoreModel) -> bool {
    &&& keys_unique(v)
    &&& forall|i: int| 0 <= i < v.len() ==> keys_unique(#[trigger] v[i].1)
}

/// The entries of collection `c` (none if it was never written).
pub open spec fn entries_in(v: StoreModel, c: Seq<char>) -> EntriesModel {
    match key_index(v, c) {
        Some(i) => v[i].1,
        None => Seq::empty(),
    }
}

/// The item with id `id` in collection `c`, if any.
pub open spec fn item_in(v: StoreModel, c: Seq<char>, id: Seq<char>) -> Option<Value> {
    let es = entries_in(v, c);
    match key_index(es, id) {
        Some(j) => Some(es[j].1),
        None => None,
    }
}

/// The items of collection `c`, in creation order.
pub open spec fn values_in(v: StoreModel, c: Seq<char>) -> Seq<Value> {
    entries_in(v, c).map_values(|e: (Seq<char>, Value)| e.1)
}

/// The store with the entries of collection `c` replaced by `es` (the
/// collection is added at the end if it did not exist).
pub open spec fn with_entries(v: StoreModel, c: Seq<char>, es: EntriesModel) -> StoreModel {
    match key_index(v, c) {
        Some(i) => v.update(i, (c, es)),
        None => v.push((c, es)),
    }
}

/// The store after creating item `item` with id `id` in collection `c`.
pub open spec fn spec_create(v: StoreModel, c: Seq<char>, id: Seq<char>, item: Value) -> StoreModel {
    with_entries(v, c, entries_in(v, c).push((id, item)))
}

/// The store after replacing the item with id `id` in collection `c`; the
/// item keeps its place.
pub open spec fn spec_update(v: StoreModel, c: Seq<char>, id: Seq<char>, item: Value) -> StoreModel {
    let es = entries_in(v, c);
    match key_index(es, id) {
        Some(j) => with_entries(v, c, es.update(j, (id, item))),
        None => v,
    }
}

/// The store after removing the item with id `id` from collection `c`.
pub open spec fn spec_delete(v: StoreModel, c: Seq<char>, id: Seq<char>) -> StoreModel {
    let es = entries_in(v, c);
    match key_index(es, id) {
        Some(j) => with_entries(v, c, es.remove(j)),
        None => v,
    }
}

/// The id under which a missing item is reported: `collection:id`.
pub open spec fn not_found_id(c: Seq<char>, id: Seq<char>) -> Seq<char> {
    c + ":"@ + id
}

// ---------------------------------------------------------------------------
// Laws of the store
// ---------------------------------------------------------------------------

/// Writing the entries of one collection changes only that collection, and
/// keeps collection names unique.
pub proof fn lemma_entries_in_with(v: StoreModel, c: Seq<char>, es: EntriesModel, c2: Seq<char>)
    requires
        keys_unique(v),
    ensures
        entries_in(with_entries(v, c, es), c2) == (if c2 == c {
            es
        } else {
            entries_in(v, c2)
        }),
        keys_unique(with_entries(v, c, es)),
{
    lemma_key_index_unique(v, c);
    lemma_key_index_unique(v, c2);
    let n = with_entries(v, c, es);
    let p: int = match key_index(v, c) {
        Some(i) => i,
        None => v.len() as int,
    };
    assert(n[p] == (c, es));
    assert forall|a: int| 0 <= a < n.len() && a != p implies #[trigger] n[a] == v[a] by {}
    assert forall|a: int, b: int| 0 <= a < b < n.len() implies #[trigger] n[a].0
        != #[trigger] n[b].0 by {
        if a == p {
            assert(v[b].0 != c);
        } else if b == p {
            assert(v[a].0 != c);
        } else {
            assert(v[a].0 != v[b].0);
        }
    }
    lemma_key_index_unique(n, c2);
    if c2 == c {
        assert(key_index(n, c2) == Some(p));
    } else {
        match key_index(v, c2) {
            Some(k) => {
                assert(k != p);
                assert(n[k] == v[k]);
                assert(key_index(n, c2) == Some(k));
            },
            None => {
                assert forall|a: int| 0 <= a < n.len() implies n[a].0 != c2 by {
                    if a != p {
                        assert(n[a] == v[a]);
                    }
                }
            },
        }
    }
}

/// A store that satisfies the invariant keeps it under `spec_create` of a
/// new id.
pub proof fn lemma_create_wf(v: StoreModel, c: Seq<char>, id: Seq<char>, item: Value)
    requires
        store_wf(v),
        item_in(v, c, id) is None,
    ensures
        store_wf(spec_create(v, c, id, item)),
{
    let es = entries_in(v, c);
    lemma_key_index_unique(v, c);
    assert(keys_unique(es));
    lemma_key_index_push(es, id, item, id);
    let n = spec_create(v, c, id, item);
    lemma_entries_in_with(v, c, es.push((id, item)), c);
    let p: int = match key_index(v, c) {
        Some(i) => i,
        None => v.len() as int,
    };
    assert forall|a: int| 0 <= a < n.len() implies keys_unique(#[trigger] n[a].1) by {
        if a != p {
            assert(n[a] == v[a]);
        }
    }
}

/// A read gives back what a create wrote: after creating `item` under a
/// new id, getting that id yields `item`; every other (collection, id) pair
/// reads as before; and the collection lists its old items followed by
/// `item`, while other collections list what they listed before.
pub proof fn law_create_then_read(
    v: StoreModel,
    c: Seq<char>,
    id: Seq<char>,
    item: Value,
    c2: Seq<char>,
    id2: Seq<char>,
)
    requires
        store_wf(v),
        item_in(v, c, id) is None,
    ensures
        item_in(spec_create(v, c, id, item), c, id) == Some(item),
        (c2 != c || id2 != id) ==> item_in(spec_create(v, c, id, item), c2, id2) == item_in(
            v,
            c2,
            id2,
        ),
        values_in(spec_create(v, c, id, item), c) == values_in(v, c).push(item),
        c2 != c ==> values_in(spec_create(v, c, id, item), c2) == values_in(v, c2),
{
    let es = entries_in(v, c);
    lemma_key_index_unique(v, c);
    lemma_entries_in_with(v, c, es.push((id, item)), c);
    lemma_entries_in_with(v, c, es.push((id, item)), c2);
    lemma_key_index_push(es, id, item, id);
    lemma_key_index_push(es, id, item, id2);
    if c2 == c && id2 != id {
        match key_index(es, id2) {
            Some(k) => {
                lemma_key_index_unique(es, id2);
                assert(es.push((id, item))[k] == es[k]);
            },
            None => {},
        }
    }
    assert(es.push((id, item)).map_values(|e: (Seq<char>, Value)| e.1) =~= es.map_values(
        |e: (Seq<char>, Value)| e.1,
    ).push(item));
}

/// A read gives back what an update wrote: after updating an existing item,
/// getting it yields the new item; every other (collection, id) pair reads as
/// before; no collection changes its number of items.
pub proof fn law_update_then_read(
    v: StoreModel,
    c: Seq<char>,
    id: Seq<char>,
    item: Value,
    c2: Seq<char>,
    id2: Seq<char>,
)
    requires
        store_wf(v),
        item_in(v, c, id) is Some,
    ensures
        store_wf(spec_update(v, c, id, item)),
        item_in(spec_update(v, c, id, item), c, id) == Some(item),
        (c2 != c || id2 != id) ==> item_in(spec_update(v, c, id, item), c2, id2) == item_in(
            v,
            c2,
            id2,
        ),
        values_in(spec_update(v, c, id, item), c2).len() == values_in(v, c2).len(),
{
    let es = entries_in(v, c);
    lemma_key_index_unique(v, c);
    assert(keys_unique(es));
    lemma_key_index_unique(es, id);
    let j = key_index(es, id)->0;
    let nes = es.update(j, (id, item));
    lemma_entries_in_with(v, c, nes, c);
    lemma_entries_in_with(v, c, nes, c2);
    assert forall|a: int, b: int| 0 <= a < b < nes.len() implies #[trigger] nes[a].0
        != #[trigger] nes[b].0 by {
        assert(nes[a].0 == es[a].0 && nes[b].0 == es[b].0);
    }
    lemma_key_index_unique(nes, id);
    lemma_key_index_unique(nes, id2);
    lemma_key_index_unique(es, id2);
    assert(nes[j] == (id, item));
    assert(key_index(nes, id) == Some(j));
    if id2 != id {
        match key_index(es, id2) {
            Some(k) => {
                assert(nes[k] == es[k]);
                assert(key_index(nes, id2) == Some(k));
            },
            None => {
                assert forall|a: int| 0 <= a < nes.len() implies nes[a].0 != id2 by {
                    assert(nes[a].0 == es[a].0 || a == j);
                }
            },
        }
    }
    let n = spec_update(v, c, id, item);
    let p: int = key_index(v, c)->0;
    assert forall|a: int| 0 <= a < n.len() implies keys_unique(#[trigger] n[a].1) by {
        if a != p {
            assert(n[a] == v[a]);
        }
    }
}

/// After deleting an existing item, getting it yields nothing; every other
/// (collection, id) pair reads as before; the collection lists one item
/// fewer.
pub proof fn law_delete_then_read(
    v: StoreModel,
    c: Seq<char>,
    id: Seq<char>,
    c2: Seq<char>,
    id2: Seq<char>,
)
    requires
        store_wf(v),
        item_in(v, c, id) is Some,
    ensures
        store_wf(spec_delete(v, c, id)),
        item_in(spec_delete(v, c, id), c, id) is None,
        (c2 != c || id2 != id) ==> item_in(spec_delete(v, c, id), c2, id2) == item_in(v, c2, id2),
        values_in(spec_delete(v, c, id), c).len() + 1 == values_in(v, c).len(),
        c2 != c ==> values_in(spec_delete(v, c, id), c2) == values_in(v, c2),
{
    let es = entries_in(v, c);
    lemma_key_index_unique(v, c);
    assert(keys_unique(es));
    lemma_key_index_unique(es, id);
    let j = key_index(es, id)->0;
    let nes = es.remove(j);
    lemma_entries_in_with(v, c, nes, c);
    lemma_entries_in_with(v, c, nes, c2);
    assert forall|a: int| 0 <= a < nes.len() implies #[trigger] nes[a] == es[if a < j {
        a
    } else {
        a + 1
    }] by {}
    assert forall|a: int, b: int| 0 <= a < b < nes.len() implies #[trigger] nes[a].0
        != #[trigger] nes[b].0 by {
        let oa = if a < j {
            a
        } else {
            a + 1
        };
        let ob = if b < j {
            b
        } else {
            b + 1
        };
        assert(nes[a] == es[oa] && nes[b] == es[ob]);
    }
    lemma_key_index_unique(nes, id);
    lemma_key_index_unique(nes, id2);
    lemma_key_index_unique(es, id2);
    assert forall|a: int| 0 <= a < nes.len() implies nes[a].0 != id by {
        let oa = if a < j {
            a
        } else {
            a + 1
        };
        assert(nes[a] == es[oa]);
    }
    if id2 != id {
        match key_index(es, id2) {
            Some(k) => {
                assert(k != j);
                let nk = if k < j {
                    k
                } else {
                    k - 1
                };
                assert(nes[nk] == es[k]);
            },
            None => {
                assert forall|a: int| 0 <= a < nes.len() implies nes[a].0 != id2 by {
                    let oa = if a < j {
                        a
                    } else {
                        a + 1
                    };
                    assert(nes[a] == es[oa]);
                }
            },
        }
    }
    let n = spec_delete(v, c, id);
    let p: int = key_index(v, c)->0;
    assert forall|a: int| 0 <= a < n.len() implies keys_unique(#[trigger] n[a].1) by {
        if a != p {
            assert(n[a] == v[a]);
        }
    }
}

// ---------------------------------------------------------------------------
// The store
// ---------------------------------------------------------------------------

/// One stored item.
struct Entry {
    id: String,
    item: Value,
}

/// One named collection.
struct Collection {
    name: String,
    entries: Vec<Entry>,
}

spec fn entries_model(es: Seq<Entry>) -> EntriesModel {
    es.map_values(|e: Entry| (e.id@, e.item))
}

spec fn collection_model(c: Collection) -> (Seq<char>, EntriesModel) {
    (c.name@, entries_model(c.entries@))
}

/// In-memory persistence: named collections of items keyed by id.
pub struct InMemoryPersistence {
    collections: Vec<Collection>,
}

impl View for InMemoryPersistence {
    type V = StoreModel;

    closed spec fn view(&self) -> StoreModel {
        self.collections@.map_values(|c: Collection| collection_model(c))
    }
}

impl InMemoryPersistence {
    /// The store's invariant holds.
    pub closed spec fn wf(&self) -> bool {
        store_wf(self@)
    }

    /// Create a new, empty in-memory persistence store.
    pub fn new() -> (s: Self)
        ensures
            s.wf(),
            s@ == Seq::<(Seq<char>, EntriesModel)>::empty(),
    {
        let s = InMemoryPersistence { collections: Vec::new() };
        assert(s@ =~= Seq::<(Seq<char>, EntriesModel)>::empty());
        s
    }

    /// The position of collection `c`.
    fn find_collection(&self, c: &String) -> (r: Option<usize>)
        ensures
            r matches Some(i) ==> key_index(self@, c@) == Some(i as int) && i
                < self.collections.len(),
            r is None ==> key_index(self@, c@) is None,
    {
        let mut i: usize = 0;
        while i < self.collections.len()
            invariant
                i <= self.collections.len(),
                key_index(self@, c@) == key_index_from(self@, c@, i as int),
            decreases self.collections.len() - i,
        {
            if self.collections[i].name == *c {
                assert(self@[i as int].0 == c@);
                return Some(i);
            }
            assert(self@[i as int].0 != c@);
            i = i + 1;
        }
        None
    }

    /// Get a single item by id.
    pub fn get(&self, collection: &str, id: &str) -> (r: Result<Option<Value>, PersistenceError>)
        requires
            self.wf(),
        ensures
            r == Ok::<Option<Value>, PersistenceError>(item_in(self@, collection@, id@)),
    {
        let c = collection.to_owned();
        let key = id.to_owned();
        match self.find_collection(&c) {
            None => Ok(None),
            Some(ci) => {
                let col = &self.collections[ci];
                assert(entries_in(self@, collection@) == entries_model(col.entries@));
                match col.find_entry(&key) {
                    None => Ok(None),
                    Some(j) => Ok(Some(clone_value(&col.entries[j].item))),
                }
            },
        }
    }

    /// List all items in a collection, in creation order.
    pub fn list(&self, collection: &str) -> (r: Result<Vec<Value>, PersistenceError>)
        requires
            self.wf(),
        ensures
            r matches Ok(items) && items@ == values_in(self@, collection@),
    {
        let c = collection.to_owned();
        let mut items: Vec<Value> = Vec::new();
        match self.find_collection(&c) {
            None => {
                assert(items@ =~= values_in(self@, collection@));
                Ok(items)
            },
            Some(ci) => {
                let col = &self.collections[ci];
                let ghost es = self@[ci as int].1;
                assert(entries_in(self@, collection@) == es);
                let mut j: usize = 0;
                while j < col.entries.len()
                    invariant
                        j <= col.entries.len(),
                        es == entries_model(col.entries@),
                        items@ == es.take(j as int).map_values(|e: (Seq<char>, Value)| e.1),
                    decreases col.entries.len() - j,
                {
                    items.push(clone_value(&col.entries[j].item));
                    assert(es.take(j + 1).map_values(|e: (Seq<char>, Value)| e.1) =~= es.take(
                        j as int,
                    ).map_values(|e: (Seq<char>, Value)| e.1).push(es[j as int].1));
                    j = j + 1;
                }
                assert(es.take(j as int) =~= es);
                Ok(items)
            },
        }
    }

    /// Create an item under the given id.  Fails with a storage error when
    /// the collection already holds that id.
    pub fn create_with_id(&mut self, collection: &str, id: String, item: Value) -> (r: Result<
        String,
        PersistenceError,
    >)
        requires
            old(self).wf(),
        ensures
            final(self).wf(),
            item_in(old(self)@, collection@, id@) is Some ==> final(self)@ == old(self)@ && (
            r matches Err(PersistenceError::StorageError(m)) && m@ == "ID collision detected"@),
            item_in(old(self)@, collection@, id@) is None ==> r == Ok::<String, PersistenceError>(id)
                && final(self)@ == spec_create(old(self)@, collection@, id@, item),
    {
        let c = collection.to_owned();
        let ghost v = self@;
        match self.find_collection(&c) {
            None => {
                proof {
                    lemma_key_index_unique(v, collection@);
                }
                let result = id.clone();
                let mut entries: Vec<Entry> = Vec::new();
                entries.push(Entry { id, item });
                assert(entries_model(entries@) =~= seq![(result@, item)]);
                let new_col = Collection { name: c, entries };
                let ghost cm = collection_model(new_col);
                self.collections.push(new_col);
                assert(self@ =~= v.push(cm));
                assert(entries_in(v, collection@) == Seq::<(Seq<char>, Value)>::empty());
                assert(seq![(result@, item)] =~= Seq::<(Seq<char>, Value)>::empty().push(
                    (result@, item),
                ));
                assert(self@ =~= spec_create(v, collection@, result@, item));
                proof {
                    let n = self@;
                    assert forall|i: int, j: int| 0 <= i < j < n.len() implies #[trigger] n[i].0
                        != #[trigger] n[j].0 by {
                        if j == n.len() - 1 {
                            assert(v[i].0 != collection@);
                        } else {
                            assert(v[i].0 != v[j].0);
                        }
                    }
                    assert forall|i: int| 0 <= i < n.len() implies keys_unique(#[trigger] n[i].1) by {
                        if i < n.len() - 1 {
                            assert(n[i] == v[i]);
                        }
                    }
                }
                Ok(result)
            },
            Some(ci) => {
                let ghost es = v[ci as int].1;
                let ghost old_cols = self.collections@;
                proof {
                    lemma_key_index_unique(v, collection@);
                }
                assert(entries_in(v, collection@) == es);
                assert(v[ci as int].0 == collection@);
                match self.collections[ci].find_entry(&id) {
                    Some(_) => {
                        Err(PersistenceError::StorageError("ID collision detected".to_owned()))
                    },
                    None => {
                        proof {
                            lemma_key_index_unique(es, id@);
                        }
                        let result = id.clone();
                        let mut col = self.take_collection(ci);
                        col.entries.push(Entry { id, item });
                        assert(entries_model(col.entries@) =~= es.push((result@, item)));
                        let ghost cm = collection_model(col);
                        assert(cm == (collection@, es.push((result@, item))));
                        self.put_collection(ci, col);
                        assert(self.collections@ =~= old_cols.update(ci as int, col));
                        assert(self@ =~= v.update(ci as int, cm));
                        assert(self@ =~= spec_create(v, collection@, result@, item));
                        proof {
                            let n = self@;
                            let nes = n[ci as int].1;
                            assert forall|i: int, j: int| 0 <= i < j < nes.len() implies #[trigger] nes[i].0
                                != #[trigger] nes[j].0 by {
                                if j == nes.len() - 1 {
                                    assert(es[i].0 != id@);
                                } else {
                                    assert(es[i].0 != es[j].0);
                                }
                            }
                            assert forall|i: int| 0 <= i < n.len() implies keys_unique(
                                #[trigger] n[i].1,
                            ) by {
                                if i != ci {
                                    assert(n[i] == v[i]);
                                }
                            }
                        }
                        Ok(result)
                    },
                }
            },
        }
    }

    /// Generate a unique id for a new item: a random version-4 UUID.
    fn generate_id(&self) -> (id: String)
        ensures
            id@.len() == 36,
    {
        new_uuid()
    }

    /// Create a new item under a freshly generated id and return the id.
    /// Fails with a storage error, leaving the store as it was, only if the
    /// generated id is already taken in the collection: so it succeeds
    /// whenever the collection holds no id of 36 characters (an empty store,
    /// for one).
    pub fn create(&mut self, collection: &str, item: Value) -> (r: Result<String, PersistenceError>)
        requires
            old(self).wf(),
        ensures
            final(self).wf(),
            r matches Ok(id) ==> id@.len() == 36 && item_in(old(self)@, collection@, id@) is None
                && final(self)@ == spec_create(old(self)@, collection@, id@, item),
            r is Err ==> final(self)@ == old(self)@ && (r matches Err(
                PersistenceError::StorageError(m),
            ) && m@ == "ID collision detected"@),
            r is Err ==> exists|k: Seq<char>|
                k.len() == 36 && #[trigger] item_in(old(self)@, collection@, k) is Some,
    {
        let id = self.generate_id();
        let ghost k = id@;
        let r = self.create_with_id(collection, id, item);
        assert(r is Err ==> k.len() == 36 && item_in(old(self)@, collection@, k) is Some);
        r
    }

    /// Replace an existing item and return the new item.  Fails with
    /// `NotFound` (id `collection:id`), leaving the store as it was, when the
    /// collection holds no item with that id.
    pub fn update(&mut self, collection: &str, id: &str, item: Value) -> (r: Result<
        Value,
        PersistenceError,
    >)
        requires
            old(self).wf(),
        ensures
            final(self).wf(),
            item_in(old(self)@, collection@, id@) is None ==> final(self)@ == old(self)@ && (
            r matches Err(PersistenceError::NotFound { id: m }) && m@ == not_found_id(
                collection@,
                id@,
            )),
            item_in(old(self)@, collection@, id@) is Some ==> r == Ok::<Value, PersistenceError>(
                item,
            ) && final(self)@ == spec_update(old(self)@, collection@, id@, item),
    {
        let c = collection.to_owned();
        let key = id.to_owned();
        let ghost v = self@;
        match self.find_collection(&c) {
            None => Err(not_found(collection, id)),
            Some(ci) => {
                let ghost es = v[ci as int].1;
                let ghost old_cols = self.collections@;
                proof {
                    lemma_key_index_unique(v, collection@);
                }
                assert(entries_in(v, collection@) == es);
                match self.collections[ci].find_entry(&key) {
                    None => Err(not_found(collection, id)),
                    Some(j) => {
                        proof {
                            lemma_key_index_unique(es, id@);
                        }
                        let stored = clone_value(&item);
                        let mut col = self.take_collection(ci);
                        col.entries.set(j, Entry { id: key, item: stored });
                        assert(entries_model(col.entries@) =~= es.update(j as int, (id@, item)));
                        let ghost cm = collection_model(col);
                        self.put_collection(ci, col);
                        assert(self.collections@ =~= old_cols.update(ci as int, col));
                        assert(self@ =~= v.update(ci as int, cm));
                        assert(self@ =~= spec_update(v, collection@, id@, item));
                        proof {
                            let n = self@;
                            let nes = n[ci as int].1;
                            assert forall|a: int, b: int| 0 <= a < b < nes.len() implies #[trigger] nes[a].0
                                != #[trigger] nes[b].0 by {
                                assert(nes[a].0 == es[a].0 && nes[b].0 == es[b].0);
                            }
                            assert forall|a: int| 0 <= a < n.len() implies keys_unique(
                                #[trigger] n[a].1,
                            ) by {
                                if a != ci {
                                    assert(n[a] == v[a]);
                                }
                            }
                        }
                        Ok(item)
                    },
                }
            },
        }
    }

    /// Delete an item.  Fails with `NotFound` (id `collection:id`), leaving
    /// the store as it was, when the collection holds no item with that id.
    pub fn delete(&mut self, collection: &str, id: &str) -> (r: Result<(), PersistenceError>)
        requires
            old(self).wf(),
        ensures
            final(self).wf(),
            item_in(old(self)@, collection@, id@) is None ==> final(self)@ == old(self)@ && (
            r matches Err(PersistenceError::NotFound { id: m }) && m@ == not_found_id(
                collection@,
                id@,
            )),
            item_in(old(self)@, collection@, id@) is Some ==> r is Ok && final(self)@
                == spec_delete(old(self)@, collection@, id@),
    {
        let c = collection.to_owned();
        let key = id.to_owned();
        let ghost v = self@;
        match self.find_collection(&c) {
            None => Err(not_found(collection, id)),
            Some(ci) => {
                let ghost es = v[ci as int].1;
                let ghost old_cols = self.collections@;
                proof {
                    lemma_key_index_unique(v, collection@);
                }
                assert(entries_in(v, collection@) == es);
                match self.collections[ci].find_entry(&key) {
                    None => Err(not_found(collection, id)),
                    Some(j) => {
                        proof {
                            lemma_key_index_unique(es, id@);
                        }
                        let mut col = self.take_collection(ci);
                        let _removed = col.entries.remove(j);
                        assert(entries_model(col.entries@) =~= es.remove(j as int));
                        let ghost cm = collection_model(col);
                        self.put_collection(ci, col);
                        assert(self.collections@ =~= old_cols.update(ci as int, col));
                        assert(self@ =~= v.update(ci as int, cm));
                        assert(self@ =~= spec_delete(v, collection@, id@));
                        proof {
                            let n = self@;
                            let nes = n[ci as int].1;
                            assert forall|a: int, b: int| 0 <= a < b < nes.len() implies #[trigger] nes[a].0
                                != #[trigger] nes[b].0 by {
                                let oa = if a < j { a } else { a + 1 };
                                let ob = if b < j { b } else { b + 1 };
                                assert(nes[a] == es[oa] && nes[b] == es[ob]);
                            }
                            assert forall|a: int| 0 <= a < n.len() implies keys_unique(
                                #[trigger] n[a].1,
                            ) by {
                                if a != ci {
                                    assert(n[a] == v[a]);
                                }
                            }
                        }
                        Ok(())
                    },
                }
            },
        }
    }

    /// Takes collection `ci` out of the store, leaving an empty one with the
    /// same name in its place.
    fn take_collection(&mut self, ci: usize) -> (col: Collection)
        requires
            ci < old(self).collections.len(),
        ensures
            col == old(self).collections@[ci as int],
            ci < final(self).collections@.len(),
            final(self).collections@ == old(self).collections@.update(
                ci as int,
                final(self).collections@[ci as int],
            ),
    {
        let name = self.collections[ci].name.clone();
        let mut col = Collection { name, entries: Vec::new() };
        self.collections.set_and_swap(ci, &mut col);
        col
    }

    /// Puts collection `col` back at position `ci`.
    fn put_collection(&mut self, ci: usize, col: Collection)
        requires
            ci < old(self).collections.len(),
        ensures
            final(self).collections@ == old(self).collections@.update(ci as int, col),
    {
        self.collections.set(ci, col);
    }
}

/// The error for a missing item: `NotFound` with id `collection:id`.
fn not_found(collection: &str, id: &str) -> (e: PersistenceError)
    ensures
        e matches PersistenceError::NotFound { id: m } && m@ == not_found_id(collection@, id@),
{
    let mut m = collection.to_owned();
    m.append(":");
    m.append(id);
    PersistenceError::NotFound { id: m }
}

impl Default for InMemoryPersistence {
    fn default() -> (s: Self)
        ensures
            s.wf(),
            s@ == Seq::<(Seq<char>, EntriesModel)>::empty(),
    {
        Self::new()
    }
}

impl Collection {
    /// The position of the entry with id `key`.
    fn find_entry(&self, key: &String) -> (r: Option<usize>)
        ensures
            r matches Some(j) ==> key_index(entries_model(self.entries@), key@) == Some(j as int)
                && j < self.entries@.len(),
            r is None ==> key_index(entries_model(self.entries@), key@) is None,
    {
        let ghost es = entries_model(self.entries@);
        let mut j: usize = 0;
        while j < self.entries.len()
            invariant
                j <= self.entries.len(),
                es == entries_model(self.entries@),
                key_index(es, key@) == key_index_from(es, key@, j as int),
            decreases self.entries.len() - j,
        {
            if self.entries[j].id == *key {
                assert(es[j as int].0 == key@);
                return Some(j);
            }
            assert(es[j as int].0 != key@);
            j = j + 1;
        }
        None
    }
}

} // verus!
