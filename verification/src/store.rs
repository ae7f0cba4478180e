//! The collections of a server in memory, by database and name, and the
//! object ids that it hands out.

use crate::bson::{docs_view, str_eq, DocView, Document};
use vstd::prelude::*;

verus! {

/// A collection: its database, its name and its documents in the order in
/// which they were stored.
#[derive(Debug)]
pub struct CollectionData {
    pub database: String,
    pub name: String,
    pub documents: Vec<Document>,
}

/// The collections of a server.
#[derive(Debug)]
pub struct Store {
    pub collections: Vec<CollectionData>,
}

/// Index of the first collection at or after `i` with the given database
/// and name; the number of collections where there is none.
pub open spec fn collection_index_from(
    cs: Seq<CollectionData>,
    db: Seq<char>,
    name: Seq<char>,
    i: int,
) -> int
    decreases cs.len() - i,
{
    if i < 0 || i >= cs.len() {
        cs.len() as int
    } else if cs[i].database@ == db && cs[i].name@ == name {
        i
    } else {
        collection_index_from(cs, db, name, i + 1)
    }
}

/// Index of the collection with the given database and name; the number
/// of collections where there is none.
pub open spec fn collection_index(cs: Seq<CollectionData>, db: Seq<char>, name: Seq<char>) -> int {
    collection_index_from(cs, db, name, 0)
}

/// Whether the collection exists.
pub open spec fn has_collection(cs: Seq<CollectionData>, db: Seq<char>, name: Seq<char>) -> bool {
    collection_index(cs, db, name) < cs.len()
}

/// The documents of a collection; none where the collection does not
/// exist.
pub open spec fn documents_of(cs: Seq<CollectionData>, db: Seq<char>, name: Seq<char>) -> Seq<
    DocView,
> {
    if has_collection(cs, db, name) {
        docs_view(cs[collection_index(cs, db, name)].documents@)
    } else {
        Seq::empty()
    }
}

proof fn lemma_collection_index_skip(cs: Seq<CollectionData>, db: Seq<char>, name: Seq<char>, i: int)
    requires
        0 <= i <= cs.len(),
        forall|j: int|
            0 <= j < i ==> !((#[trigger] cs[j]).database@ == db && cs[j].name@ == name),
    ensures
        collection_index_from(cs, db, name, i) == collection_index(cs, db, name),
    decreases i,
{
    if i > 0 {
        lemma_collection_index_skip(cs, db, name, i - 1);
        assert(!(cs[i - 1].database@ == db && cs[i - 1].name@ == name));
    }
}

/// `collection_index` points at the first collection with the database and
/// the name.
pub proof fn lemma_collection_index(cs: Seq<CollectionData>, db: Seq<char>, name: Seq<char>, i: int)
    requires
        0 <= i <= cs.len(),
    ensures
        i <= collection_index_from(cs, db, name, i) <= cs.len(),
        collection_index_from(cs, db, name, i) < cs.len() ==> cs[collection_index_from(
            cs,
            db,
            name,
            i,
        )].database@ == db && cs[collection_index_from(cs, db, name, i)].name@ == name,
        forall|j: int|
            i <= j < collection_index_from(cs, db, name, i) ==> !((#[trigger] cs[j]).database@
                == db && cs[j].name@ == name),
    decreases cs.len() - i,
{
    if i < cs.len() && !(cs[i].database@ == db && cs[i].name@ == name) {
        lemma_collection_index(cs, db, name, i + 1);
    }
}

/// Whether two lists hold collections of the same databases and names, in
/// the same order.
pub open spec fn same_names(a: Seq<CollectionData>, b: Seq<CollectionData>) -> bool {
    a.len() == b.len() && forall|j: int|
        0 <= j < a.len() ==> (#[trigger] a[j]).database@ == b[j].database@ && a[j].name@
            == b[j].name@
}

/// Lists of collections of the same databases and names find every
/// collection at the same place.
pub proof fn lemma_same_names(
    a: Seq<CollectionData>,
    b: Seq<CollectionData>,
    db: Seq<char>,
    name: Seq<char>,
    i: int,
)
    requires
        same_names(a, b),
        0 <= i <= a.len(),
    ensures
        collection_index_from(a, db, name, i) == collection_index_from(b, db, name, i),
    decreases a.len() - i,
{
    if i < a.len() {
        assert(a[i].database@ == b[i].database@ && a[i].name@ == b[i].name@);
        lemma_same_names(a, b, db, name, i + 1);
    }
}

/// The names of the collections of a database among the first `n`
/// collections, in order.
pub open spec fn names_in(cs: Seq<CollectionData>, db: Seq<char>, n: int) -> Seq<Seq<char>>
    decreases n,
{
    if n <= 0 || n > cs.len() {
        Seq::empty()
    } else if cs[n - 1].database@ == db {
        names_in(cs, db, n - 1).push(cs[n - 1].name@)
    } else {
        names_in(cs, db, n - 1)
    }
}

/// The databases of the first `n` collections, each once, in the order in
/// which they first occur.
pub open spec fn databases_in(cs: Seq<CollectionData>, n: int) -> Seq<Seq<char>>
    decreases n,
{
    if n <= 0 || n > cs.len() {
        Seq::empty()
    } else if databases_in(cs, n - 1).contains(cs[n - 1].database@) {
        databases_in(cs, n - 1)
    } else {
        databases_in(cs, n - 1).push(cs[n - 1].database@)
    }
}

/// The models of a list of strings.
pub open spec fn names_view(s: Seq<String>) -> Seq<Seq<char>> {
    Seq::new(s.len(), |i: int| s[i]@)
}

impl Store {
    /// A store without collections.
    pub fn new() -> (r: Self)
        ensures
            r.collections@.len() == 0,
    {
        Store { collections: Vec::new() }
    }

    /// Index of the collection with the given database and name.
    pub fn find_collection(&self, db: &str, name: &str) -> (r: Option<usize>)
        ensures
            match r {
                Some(i) => has_collection(self.collections@, db@, name@) && i == collection_index(
                    self.collections@,
                    db@,
                    name@,
                ),
                None => !has_collection(self.collections@, db@, name@),
            },
    {
        let mut i: usize = 0;
        while i < self.collections.len()
            invariant
                i <= self.collections.len(),
                forall|j: int|
                    0 <= j < i ==> !((#[trigger] self.collections@[j]).database@ == db@
                        && self.collections@[j].name@ == name@),
            decreases self.collections.len() - i,
        {
            if str_eq(self.collections[i].database.as_str(), db) && str_eq(
                self.collections[i].name.as_str(),
                name,
            ) {
                proof {
                    lemma_collection_index_skip(self.collections@, db@, name@, i as int);
                }
                return Some(i);
            }
            i = i + 1;
        }
        proof {
            lemma_collection_index_skip(self.collections@, db@, name@, i as int);
        }
        None
    }

    /// Makes sure that a collection exists: where it does not, an empty one
    /// is added behind the others. Returns the index of the collection.
    /// Asking twice is asking once.
    pub fn ensure_collection(&mut self, db: &str, name: &str) -> (r: usize)
        ensures
            has_collection(final(self).collections@, db@, name@),
            r == collection_index(final(self).collections@, db@, name@),
            has_collection(old(self).collections@, db@, name@) ==> final(self).collections@
                == old(self).collections@,
            !has_collection(old(self).collections@, db@, name@) ==> {
                &&& final(self).collections@.len() == old(self).collections@.len() + 1
                &&& final(self).collections@.drop_last() == old(self).collections@
                &&& final(self).collections@.last().documents@.len() == 0
                &&& r == old(self).collections@.len()
            },
    {
        match self.find_collection(db, name) {
            Some(i) => i,
            None => {
                let ghost before = self.collections@;
                self.collections.push(
                    CollectionData {
                        database: db.to_owned(),
                        name: name.to_owned(),
                        documents: Vec::new(),
                    },
                );
                proof {
                    let after = self.collections@;
                    assert(after.drop_last() =~= before);
                    lemma_collection_index(before, db@, name@, 0);
                    assert forall|j: int| 0 <= j < before.len() implies !((
                    #[trigger] after[j]).database@ == db@ && after[j].name@ == name@) by {
                        assert(after[j] == before[j]);
                    }
                    lemma_collection_index_skip(after, db@, name@, before.len() as int);
                }
                self.collections.len() - 1
            },
        }
    }

    /// Removes a collection and its documents. Returns whether there was
    /// one. Dropping twice is dropping once.
    pub fn drop_collection(&mut self, db: &str, name: &str) -> (r: bool)
        ensures
            r == has_collection(old(self).collections@, db@, name@),
            r ==> final(self).collections@ == old(self).collections@.remove(
                collection_index(old(self).collections@, db@, name@),
            ),
            !r ==> final(self).collections@ == old(self).collections@,
    {
        match self.find_collection(db, name) {
            Some(i) => {
                let _ = self.collections.remove(i);
                true
            },
            None => false,
        }
    }

    /// The names of the collections of a database, in the order in which
    /// they were made.
    pub fn list_collections(&self, db: &str) -> (r: Vec<String>)
        ensures
            names_view(r@) == names_in(self.collections@, db@, self.collections@.len() as int),
    {
        let mut out: Vec<String> = Vec::new();
        let mut i: usize = 0;
        assert(names_view(out@) =~= Seq::<Seq<char>>::empty());
        while i < self.collections.len()
            invariant
                i <= self.collections.len(),
                names_view(out@) == names_in(self.collections@, db@, i as int),
            decreases self.collections.len() - i,
        {
            if str_eq(self.collections[i].database.as_str(), db) {
                let ghost before = names_view(out@);
                out.push(self.collections[i].name.clone());
                assert(names_view(out@) =~= before.push(self.collections@[i as int].name@));
            }
            i = i + 1;
        }
        out
    }

    /// The databases that hold a collection, each once, in the order in
    /// which they first occur.
    pub fn list_databases(&self) -> (r: Vec<String>)
        ensures
            names_view(r@) == databases_in(self.collections@, self.collections@.len() as int),
    {
        let mut out: Vec<String> = Vec::new();
        let mut i: usize = 0;
        assert(names_view(out@) =~= Seq::<Seq<char>>::empty());
        while i < self.collections.len()
            invariant
                i <= self.collections.len(),
                names_view(out@) == databases_in(self.collections@, i as int),
            decreases self.collections.len() - i,
        {
            let db = self.collections[i].database.as_str();
            let mut seen = false;
            let mut j: usize = 0;
            while j < out.len()
                invariant
                    j <= out.len(),
                    seen == exists|k: int| 0 <= k < j && (#[trigger] names_view(out@)[k]) == db@,
                decreases out.len() - j,
            {
                if str_eq(out[j].as_str(), db) {
                    assert(names_view(out@)[j as int] == db@);
                    seen = true;
                }
                j = j + 1;
            }
            assert(seen == names_view(out@).contains(db@));
            if !seen {
                let ghost before = names_view(out@);
                out.push(self.collections[i].database.clone());
                assert(names_view(out@) =~= before.push(db@));
            }
            i = i + 1;
        }
        out
    }

    /// The documents of the collection at `i`.
    pub fn documents(&self, i: usize) -> (r: &Vec<Document>)
        requires
            i < self.collections@.len(),
        ensures
            *r == self.collections@[i as int].documents,
    {
        &self.collections[i].documents
    }

    /// Takes the documents out of the collection at `i`, which is left
    /// empty, so that they can be worked on and put back.
    pub fn take_documents(&mut self, i: usize) -> (r: Vec<Document>)
        requires
            i < old(self).collections@.len(),
        ensures
            r == old(self).collections@[i as int].documents,
            final(self).collections@.len() == old(self).collections@.len(),
            final(self).collections@[i as int].database == old(self).collections@[i as int].database,
            final(self).collections@[i as int].name == old(self).collections@[i as int].name,
            final(self).collections@[i as int].documents@.len() == 0,
            forall|j: int|
                0 <= j < old(self).collections@.len() && j != i ==> final(self).collections@[j]
                    == old(self).collections@[j],
            same_names(old(self).collections@, final(self).collections@),
    {
        let c = self.collections.remove(i);
        let CollectionData { database, name, documents } = c;
        self.collections.insert(i, CollectionData { database, name, documents: Vec::new() });
        documents
    }

    /// Puts documents into the collection at `i`, in the place of those it
    /// holds.
    pub fn put_documents(&mut self, i: usize, documents: Vec<Document>)
        requires
            i < old(self).collections@.len(),
        ensures
            final(self).collections@.len() == old(self).collections@.len(),
            final(self).collections@[i as int].database == old(self).collections@[i as int].database,
            final(self).collections@[i as int].name == old(self).collections@[i as int].name,
            final(self).collections@[i as int].documents == documents,
            forall|j: int|
                0 <= j < old(self).collections@.len() && j != i ==> final(self).collections@[j]
                    == old(self).collections@[j],
            same_names(old(self).collections@, final(self).collections@),
    {
        let c = self.collections.remove(i);
        let CollectionData { database, name, documents: _ } = c;
        self.collections.insert(i, CollectionData { database, name, documents });
    }
}

/// Whether every collection but the one with the given database and name
/// is in `b` what it is in `a`.
pub open spec fn others_unchanged(
    a: Seq<CollectionData>,
    b: Seq<CollectionData>,
    db: Seq<char>,
    name: Seq<char>,
) -> bool {
    forall|d: Seq<char>, c: Seq<char>|
        !(d == db && c == name) ==> (#[trigger] has_collection(b, d, c) <==> has_collection(
            a,
            d,
            c,
        )) && documents_of(b, d, c) == documents_of(a, d, c)
}

/// Where a collection that was added behind the others is found.
pub proof fn lemma_collection_index_pushed(
    a: Seq<CollectionData>,
    x: CollectionData,
    db: Seq<char>,
    name: Seq<char>,
    i: int,
)
    requires
        0 <= i <= a.len(),
    ensures
        collection_index_from(a, db, name, i) < a.len() ==> collection_index_from(
            a.push(x),
            db,
            name,
            i,
        ) == collection_index_from(a, db, name, i),
        collection_index_from(a, db, name, i) == a.len() && (x.database@ == db && x.name@ == name)
            ==> collection_index_from(a.push(x), db, name, i) == a.len(),
        collection_index_from(a, db, name, i) == a.len() && !(x.database@ == db && x.name@
            == name) ==> collection_index_from(a.push(x), db, name, i) == a.len() + 1,
    decreases a.len() - i,
{
    if i < a.len() {
        assert(a.push(x)[i] == a[i]);
        if !(a[i].database@ == db && a[i].name@ == name) {
            lemma_collection_index_pushed(a, x, db, name, i + 1);
        }
    } else {
        assert(a.push(x)[i] == x);
        assert(collection_index_from(a.push(x), db, name, i + 1) == a.len() + 1);
    }
}

impl Store {
    /// Takes the documents out of a collection, which is left empty, so
    /// that they can be worked on and put back. A collection that does not
    /// exist has no documents and is not made.
    pub fn take_collection(&mut self, db: &str, name: &str) -> (r: Vec<Document>)
        ensures
            docs_view(r@) == documents_of(old(self).collections@, db@, name@),
            same_names(old(self).collections@, final(self).collections@),
            others_unchanged(old(self).collections@, final(self).collections@, db@, name@),
            has_collection(final(self).collections@, db@, name@) == has_collection(
                old(self).collections@,
                db@,
                name@,
            ),
    {
        match self.find_collection(db, name) {
            Some(i) => {
                let ghost before = self.collections@;
                let docs = self.take_documents(i);
                proof {
                    let after = self.collections@;
                    lemma_same_names(before, after, db@, name@, 0);
                    assert forall|d: Seq<char>, c: Seq<char>| !(d == db@ && c == name@) implies ((
                    #[trigger] has_collection(after, d, c) <==> has_collection(before, d, c))
                        && documents_of(after, d, c) == documents_of(before, d, c)) by {
                        lemma_same_names(before, after, d, c, 0);
                        lemma_collection_index(before, d, c, 0);
                        lemma_collection_index(before, db@, name@, 0);
                        let k = collection_index(before, d, c);
                        if k < before.len() {
                            assert(before[k].database@ == d && before[k].name@ == c);
                            assert(k != i);
                            assert(after[k] == before[k]);
                        }
                    }
                }
                docs
            },
            None => {
                let r: Vec<Document> = Vec::new();
                assert(docs_view(r@) =~= Seq::<DocView>::empty());
                r
            },
        }
    }

    /// Puts documents into a collection, in the place of those it holds.
    /// A collection that does not exist is made.
    pub fn replace_documents(&mut self, db: &str, name: &str, documents: Vec<Document>)
        ensures
            has_collection(final(self).collections@, db@, name@),
            documents_of(final(self).collections@, db@, name@) == docs_view(documents@),
            others_unchanged(old(self).collections@, final(self).collections@, db@, name@),
    {
        let ghost before = self.collections@;
        let i = self.ensure_collection(db, name);
        let ghost mid = self.collections@;
        self.put_documents(i, documents);
        proof {
            let after = self.collections@;
            lemma_same_names(mid, after, db@, name@, 0);
            assert forall|d: Seq<char>, c: Seq<char>| !(d == db@ && c == name@) implies ((
            #[trigger] has_collection(after, d, c) <==> has_collection(before, d, c))
                && documents_of(after, d, c) == documents_of(before, d, c)) by {
                lemma_same_names(mid, after, d, c, 0);
                lemma_collection_index(mid, d, c, 0);
                let k = collection_index(mid, d, c);
                if k < mid.len() {
                    assert(mid[k].database@ == d && mid[k].name@ == c);
                    assert(k != i) by {
                        lemma_collection_index(mid, db@, name@, 0);
                    }
                    assert(after[k] == mid[k]);
                }
                if !has_collection(before, db@, name@) {
                    assert(mid.drop_last() == before);
                    assert(mid =~= before.push(mid.last()));
                    lemma_collection_index_pushed(before, mid.last(), d, c, 0);
                    lemma_collection_index_pushed(before, mid.last(), db@, name@, 0);
                    lemma_collection_index(before, d, c, 0);
                    let kb = collection_index(before, d, c);
                    if kb < before.len() {
                        assert(mid[kb] == before[kb]);
                    }
                }
            }
        }
    }
}

/// Hands out object ids: four bytes of time, five bytes that the process
/// chose when it started, and three bytes of a counter.
#[derive(Debug, Clone, Copy, PartialEq, Eq)]
pub struct ObjectIdGenerator {
    /// Seconds since the Unix epoch when the generator was made.
    pub timestamp: u32,
    pub process: [u8; 5],
    /// The next value of the counter, under two to the power 24.
    pub counter: u32,
}

/// The bytes of the object id that a generator hands out next.
pub open spec fn object_id_bytes(g: ObjectIdGenerator) -> Seq<u8> {
    seq![
        (g.timestamp / 0x1000000) as u8,
        ((g.timestamp / 0x10000) % 256) as u8,
        ((g.timestamp / 0x100) % 256) as u8,
        (g.timestamp % 256) as u8,
        g.process@[0],
        g.process@[1],
        g.process@[2],
        g.process@[3],
        g.process@[4],
        ((g.counter / 0x10000) % 256) as u8,
        ((g.counter / 0x100) % 256) as u8,
        (g.counter % 256) as u8,
    ]
}

impl ObjectIdGenerator {
    /// A generator that starts counting at `start`, taken modulo two to
    /// the power 24.
    pub fn new(timestamp: u32, process: [u8; 5], start: u32) -> (r: Self)
        ensures
            r.timestamp == timestamp,
            r.process == process,
            r.counter == start % 0x1000000,
    {
        ObjectIdGenerator { timestamp, process, counter: start % 0x1000000 }
    }

    /// Hands out an object id and moves the counter on; after two to the
    /// power 24 ids the counter starts again at zero.
    pub fn next(&mut self) -> (r: [u8; 12])
        requires
            old(self).counter < 0x1000000,
        ensures
            r@ == object_id_bytes(*old(self)),
            final(self).timestamp == old(self).timestamp,
            final(self).process == old(self).process,
            final(self).counter == (old(self).counter + 1) % 0x1000000,
            final(self).counter < 0x1000000,
    {
        let t = self.timestamp;
        let c = self.counter;
        let r: [u8; 12] = [
            (t / 0x1000000) as u8,
            ((t / 0x10000) % 256) as u8,
            ((t / 0x100) % 256) as u8,
            (t % 256) as u8,
            self.process[0],
            self.process[1],
            self.process[2],
            self.process[3],
            self.process[4],
            ((c / 0x10000) % 256) as u8,
            ((c / 0x100) % 256) as u8,
            (c % 256) as u8,
        ];
        self.counter = (c + 1) % 0x1000000;
        assert(r@ =~= object_id_bytes(*old(self)));
        r
    }
}

/// Two object ids of one generator differ where their counters differ.
pub proof fn lemma_object_ids_differ(a: ObjectIdGenerator, b: ObjectIdGenerator)
    requires
        a.counter < 0x1000000,
        b.counter < 0x1000000,
        a.counter != b.counter,
    ensures
        object_id_bytes(a) != object_id_bytes(b),
{
    let x = object_id_bytes(a);
    let y = object_id_bytes(b);
    if x == y {
        assert(x[9] == y[9]);
        assert(x[10] == y[10]);
        assert(x[11] == y[11]);
        let ca = a.counter as int;
        let cb = b.counter as int;
        assert(ca == (ca / 0x10000) * 0x10000 + ((ca / 0x100) % 256) * 0x100 + ca % 256);
        assert(cb == (cb / 0x10000) * 0x10000 + ((cb / 0x100) % 256) * 0x100 + cb % 256);
    }
}

} // verus!
