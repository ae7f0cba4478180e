//! The cursors of one connection: what is left of a result after its first
//! batch, kept under an id until it has been handed out or given up.

use crate::bson::{docs_view, DocView, Document};
use vstd::prelude::*;

verus! {

/// What is left of a result.
#[derive(Debug)]
pub struct Cursor {
    /// Never zero.
    pub id: u64,
    /// `<database>.<collection>`.
    pub namespace: String,
    /// The documents that have not been handed out yet, in order.
    pub remaining: Vec<Document>,
    /// Documents per batch where a request names no size of its own.
    pub batch_size: usize,
    /// When the cursor was last used, in milliseconds.
    pub last_used: u64,
}

/// Why a cursor operation failed.
#[derive(Debug, Clone, Copy, PartialEq, Eq, Structural)]
pub enum CursorError {
    /// No cursor with this id is open on the connection.
    CursorNotFound(u64),
    /// The connection has used up its cursor ids.
    TooManyCursors,
}

/// The open cursors of one connection.
#[derive(Debug)]
pub struct CursorRegistry {
    pub cursors: Vec<Cursor>,
    /// The id that the next cursor gets.
    pub next_id: u64,
}

/// One batch and the id under which the rest can be had; zero where
/// nothing is left.
#[derive(Debug)]
pub struct Batch {
    pub documents: Vec<Document>,
    pub cursor_id: u64,
    pub namespace: String,
}

/// Index of the cursor with the given id at or after `i`; the number of
/// cursors where there is none.
pub open spec fn cursor_index_from(c: Seq<Cursor>, id: u64, i: int) -> int
    decreases c.len() - i,
{
    if i < 0 || i >= c.len() {
        c.len() as int
    } else if c[i].id == id {
        i
    } else {
        cursor_index_from(c, id, i + 1)
    }
}

/// Index of the cursor with the given id; the number of cursors where
/// there is none.
pub open spec fn cursor_index(c: Seq<Cursor>, id: u64) -> int {
    cursor_index_from(c, id, 0)
}

/// Whether a cursor with the given id is open.
pub open spec fn is_open(c: Seq<Cursor>, id: u64) -> bool {
    cursor_index(c, id) < c.len()
}

proof fn lemma_cursor_index_skip(c: Seq<Cursor>, id: u64, i: int)
    requires
        0 <= i <= c.len(),
        forall|j: int| 0 <= j < i ==> (#[trigger] c[j]).id != id,
    ensures
        cursor_index_from(c, id, i) == cursor_index(c, id),
    decreases i,
{
    if i > 0 {
        lemma_cursor_index_skip(c, id, i - 1);
        assert(c[i - 1].id != id);
    }
}

/// `cursor_index` returns the first cursor with the id.
pub proof fn lemma_cursor_index(c: Seq<Cursor>, id: u64)
    ensures
        0 <= cursor_index(c, id) <= c.len(),
        is_open(c, id) ==> c[cursor_index(c, id)].id == id,
        is_open(c, id) <==> exists|j: int| 0 <= j < c.len() && (#[trigger] c[j]).id == id,
{
    lemma_cursor_index_from(c, id, 0);
    if exists|j: int| 0 <= j < c.len() && (#[trigger] c[j]).id == id {
        let j = choose|j: int| 0 <= j < c.len() && (#[trigger] c[j]).id == id;
        if !is_open(c, id) {
            assert(c[j].id != id);
        }
    }
}

proof fn lemma_cursor_index_from(c: Seq<Cursor>, id: u64, i: int)
    requires
        0 <= i <= c.len(),
    ensures
        i <= cursor_index_from(c, id, i) <= c.len(),
        cursor_index_from(c, id, i) < c.len() ==> c[cursor_index_from(c, id, i)].id == id,
        forall|j: int| i <= j < cursor_index_from(c, id, i) ==> (#[trigger] c[j]).id != id,
    decreases c.len() - i,
{
    if i < c.len() && c[i].id != id {
        lemma_cursor_index_from(c, id, i + 1);
    }
}

/// What closing the cursors named by `ids` from index `i` on leaves of the
/// cursors `c`, given the ids `killed` that were closed before and the ids
/// `missing` that named no open cursor.
pub open spec fn killed_from(
    c: Seq<Cursor>,
    ids: Seq<u64>,
    i: int,
    killed: Seq<u64>,
    missing: Seq<u64>,
) -> (Seq<Cursor>, Seq<u64>, Seq<u64>)
    decreases ids.len() - i,
{
    if i < 0 || i >= ids.len() {
        (c, killed, missing)
    } else if is_open(c, ids[i]) {
        killed_from(c.remove(cursor_index(c, ids[i])), ids, i + 1, killed.push(ids[i]), missing)
    } else {
        killed_from(c, ids, i + 1, killed, missing.push(ids[i]))
    }
}

/// Whether a cursor was used within `timeout` milliseconds before `now`.
pub open spec fn is_fresh(c: Cursor, now: u64, timeout: u64) -> bool {
    now < c.last_used || now - c.last_used <= timeout
}

/// Those of the first `n` cursors that were used within `timeout`
/// milliseconds before `now`, in their order.
pub open spec fn fresh_cursors(c: Seq<Cursor>, now: u64, timeout: u64, n: int) -> Seq<Cursor>
    decreases n,
{
    if n <= 0 || n > c.len() {
        Seq::empty()
    } else if is_fresh(c[n - 1], now, timeout) {
        fresh_cursors(c, now, timeout, n - 1).push(c[n - 1])
    } else {
        fresh_cursors(c, now, timeout, n - 1)
    }
}

/// The cursors that stay are cursors that were there, in their order.
pub proof fn lemma_fresh_cursors(c: Seq<Cursor>, now: u64, timeout: u64, n: int)
    requires
        0 <= n <= c.len(),
    ensures
        forall|j: int|
            0 <= j < fresh_cursors(c, now, timeout, n).len() ==> exists|k: int|
                0 <= k < n && c[k] == #[trigger] fresh_cursors(c, now, timeout, n)[j],
        forall|a: int, b: int|
            0 <= a < b < fresh_cursors(c, now, timeout, n).len() ==> exists|k: int, l: int|
                0 <= k < l < n && c[k] == #[trigger] fresh_cursors(c, now, timeout, n)[a] && c[l]
                    == #[trigger] fresh_cursors(c, now, timeout, n)[b],
    decreases n,
{
    if n > 0 {
        lemma_fresh_cursors(c, now, timeout, n - 1);
        let prev = fresh_cursors(c, now, timeout, n - 1);
        let cur = fresh_cursors(c, now, timeout, n);
        assert forall|j: int| 0 <= j < cur.len() implies exists|k: int|
            0 <= k < n && c[k] == #[trigger] cur[j] by {
            if j < prev.len() {
                let k = choose|k: int| 0 <= k < n - 1 && c[k] == prev[j];
                assert(c[k] == cur[j]);
            } else {
                assert(c[n - 1] == cur[j]);
            }
        }
        assert forall|a: int, b: int| 0 <= a < b < cur.len() implies exists|k: int, l: int|
            0 <= k < l < n && c[k] == #[trigger] cur[a] && c[l] == #[trigger] cur[b] by {
            if b < prev.len() {
                let (k, l) = choose|k: int, l: int|
                    0 <= k < l < n - 1 && c[k] == prev[a] && c[l] == prev[b];
                assert(c[k] == cur[a] && c[l] == cur[b]);
            } else {
                let k = choose|k: int| 0 <= k < n - 1 && c[k] == prev[a];
                assert(c[k] == cur[a] && c[n - 1] == cur[b]);
            }
        }
    }
}

/// Documents in a batch of a cursor that was opened without a first
/// batch, where a request for more names no size.
pub const FALLBACK_BATCH_SIZE: usize = 101;

/// The batch size of a cursor for a request that names none: the size of
/// its first batch, or the fallback where the first batch was asked to be
/// empty.
pub open spec fn own_batch_size(c: Cursor) -> usize {
    if c.batch_size == 0 {
        FALLBACK_BATCH_SIZE
    } else {
        c.batch_size
    }
}

/// The number of documents of the next batch.
pub open spec fn batch_len(available: nat, size: usize) -> nat {
    if size < available {
        size as nat
    } else {
        available
    }
}

impl CursorRegistry {
    /// The registry is consistent: no cursor has the id zero, no two have
    /// the same id, every id was given out before `next_id`, and every
    /// cursor still holds documents.
    pub open spec fn wf(&self) -> bool {
        &&& self.next_id >= 1
        &&& forall|i: int|
            0 <= i < self.cursors@.len() ==> {
                &&& 0 < (#[trigger] self.cursors@[i]).id < self.next_id
                &&& self.cursors@[i].remaining@.len() > 0
            }
        &&& forall|i: int, j: int|
            0 <= i < j < self.cursors@.len() ==> (#[trigger] self.cursors@[i]).id != (
            #[trigger] self.cursors@[j]).id
    }

    /// A registry without cursors.
    pub fn new() -> (r: Self)
        ensures
            r.wf(),
            r.cursors@.len() == 0,
            r.next_id == 1,
    {
        CursorRegistry { cursors: Vec::new(), next_id: 1 }
    }

    /// Number of open cursors.
    pub fn len(&self) -> (r: usize)
        ensures
            r == self.cursors@.len(),
    {
        self.cursors.len()
    }

    /// Index of the cursor with the given id.
    pub fn find(&self, id: u64) -> (r: Option<usize>)
        ensures
            match r {
                Some(i) => is_open(self.cursors@, id) && i == cursor_index(self.cursors@, id)
                    && self.cursors@[i as int].id == id,
                None => !is_open(self.cursors@, id),
            },
    {
        let mut i: usize = 0;
        while i < self.cursors.len()
            invariant
                i <= self.cursors.len(),
                forall|j: int| 0 <= j < i ==> (#[trigger] self.cursors@[j]).id != id,
            decreases self.cursors.len() - i,
        {
            if self.cursors[i].id == id {
                proof {
                    lemma_cursor_index_skip(self.cursors@, id, i as int);
                }
                return Some(i);
            }
            i = i + 1;
        }
        proof {
            lemma_cursor_index_skip(self.cursors@, id, i as int);
        }
        None
    }

    /// Whether a cursor with the given id is open.
    pub fn contains(&self, id: u64) -> (r: bool)
        ensures
            r == is_open(self.cursors@, id),
    {
        self.find(id).is_some()
    }

    /// Hands out the first batch of a result: its first `batch_size`
    /// documents, or all of them where there are fewer. Where documents
    /// are left, they are kept under a new id, which is not zero and is not
    /// the id of any cursor that is or was open; where none is left, no
    /// cursor is kept and the id is zero.
    pub fn open(
        &mut self,
        namespace: String,
        documents: Vec<Document>,
        batch_size: usize,
        now: u64,
    ) -> (r: Result<Batch, CursorError>)
        requires
            old(self).wf(),
        ensures
            final(self).wf(),
            match r {
                Ok(b) => {
                    &&& b.namespace@ == namespace@
                    &&& docs_view(b.documents@) == docs_view(documents@).take(
                        batch_len(documents@.len(), batch_size) as int,
                    )
                    &&& (b.cursor_id == 0 <==> documents@.len() <= batch_size)
                    &&& b.cursor_id == 0 ==> final(self).cursors@ == old(self).cursors@
                        && final(self).next_id == old(self).next_id
                    &&& b.cursor_id != 0 ==> {
                        &&& b.cursor_id == old(self).next_id
                        &&& !is_open(old(self).cursors@, b.cursor_id)
                        &&& final(self).next_id == old(self).next_id + 1
                        &&& final(self).cursors@.len() == old(self).cursors@.len() + 1
                        &&& final(self).cursors@.drop_last() == old(self).cursors@
                        &&& final(self).cursors@.last().id == b.cursor_id
                        &&& final(self).cursors@.last().namespace@ == namespace@
                        &&& final(self).cursors@.last().batch_size == batch_size
                        &&& final(self).cursors@.last().last_used == now
                        &&& docs_view(final(self).cursors@.last().remaining@) == docs_view(
                            documents@,
                        ).skip(batch_size as int)
                    }
                },
                Err(e) => {
                    &&& e == CursorError::TooManyCursors
                    &&& documents@.len() > batch_size
                    &&& old(self).next_id == u64::MAX
                    &&& final(self).cursors@ == old(self).cursors@
                    &&& final(self).next_id == old(self).next_id
                },
            },
    {
        let mut first = documents;
        if first.len() <= batch_size {
            assert(docs_view(first@).take(first@.len() as int) =~= docs_view(first@));
            return Ok(Batch { documents: first, cursor_id: 0, namespace });
        }
        if self.next_id == u64::MAX {
            return Err(CursorError::TooManyCursors);
        }
        let rest = first.split_off(batch_size);
        let id = self.next_id;
        proof {
            lemma_cursor_index(self.cursors@, id);
            assert(docs_view(first@) =~= docs_view(documents@).take(batch_size as int));
            assert(docs_view(rest@) =~= docs_view(documents@).skip(batch_size as int));
        }
        let ns = namespace.clone();
        self.cursors.push(
            Cursor { id, namespace, remaining: rest, batch_size, last_used: now },
        );
        self.next_id = self.next_id + 1;
        proof {
            assert(self.cursors@.drop_last() =~= old(self).cursors@);
            assert forall|i: int, j: int| 0 <= i < j < self.cursors@.len() implies (
            #[trigger] self.cursors@[i]).id != (#[trigger] self.cursors@[j]).id by {
                if j < old(self).cursors@.len() {
                    assert(self.cursors@[i] == old(self).cursors@[i]);
                    assert(self.cursors@[j] == old(self).cursors@[j]);
                } else {
                    assert(self.cursors@[i] == old(self).cursors@[i]);
                }
            }
        }
        Ok(Batch { documents: first, cursor_id: id, namespace: ns })
    }

    /// Hands out the next batch of a cursor: its next `batch_size`
    /// documents, by the cursor's own batch size where none is given, and
    /// by the fallback where that is zero. Where
    /// documents are left the cursor stays open under its id; where none is
    /// left it is closed and the id returned is zero. An id that names no
    /// open cursor gives `CursorNotFound`.
    pub fn get_more(&mut self, id: u64, batch_size: Option<usize>, now: u64) -> (r: Result<
        Batch,
        CursorError,
    >)
        requires
            old(self).wf(),
        ensures
            final(self).wf(),
            final(self).next_id == old(self).next_id,
            match r {
                Err(e) => {
                    &&& e == CursorError::CursorNotFound(id)
                    &&& !is_open(old(self).cursors@, id)
                    &&& final(self).cursors@ == old(self).cursors@
                },
                Ok(b) => {
                    let i = cursor_index(old(self).cursors@, id);
                    let c = old(self).cursors@[i];
                    let size = match batch_size {
                        Some(n) => n,
                        None => own_batch_size(c),
                    };
                    let k = batch_len(c.remaining@.len(), size) as int;
                    &&& is_open(old(self).cursors@, id)
                    &&& b.namespace@ == c.namespace@
                    &&& docs_view(b.documents@) == docs_view(c.remaining@).take(k)
                    &&& (b.cursor_id == 0 <==> c.remaining@.len() <= size)
                    &&& b.cursor_id != 0 ==> b.cursor_id == id
                    &&& b.cursor_id == 0 ==> !is_open(final(self).cursors@, id) && final(self).cursors@ == old(self).cursors@.remove(i)
                    &&& b.cursor_id != 0 ==> {
                        &&& final(self).cursors@.len() == old(self).cursors@.len()
                        &&& forall|j: int|
                            0 <= j < old(self).cursors@.len() && j != i ==> final(self).cursors@[j] == old(self).cursors@[j]
                        &&& final(self).cursors@[i].id == id
                        &&& final(self).cursors@[i].namespace@ == c.namespace@
                        &&& final(self).cursors@[i].batch_size == c.batch_size
                        &&& final(self).cursors@[i].last_used == now
                        &&& docs_view(final(self).cursors@[i].remaining@) == docs_view(
                            c.remaining@,
                        ).skip(k)
                    }
                },
            },
    {
        let i = match self.find(id) {
            Some(i) => i,
            None => {
                return Err(CursorError::CursorNotFound(id));
            },
        };
        let ghost before = self.cursors@;
        let cursor = self.cursors.remove(i);
        proof {
            assert forall|a: int, b: int| 0 <= a < b < self.cursors@.len() implies (
            #[trigger] self.cursors@[a]).id != (#[trigger] self.cursors@[b]).id by {
                let a0 = if a < i { a } else { a + 1 };
                let b0 = if b < i { b } else { b + 1 };
                assert(self.cursors@[a] == before[a0]);
                assert(self.cursors@[b] == before[b0]);
            }
            assert forall|a: int| 0 <= a < self.cursors@.len() implies (
            #[trigger] self.cursors@[a]).id != id by {
                let a0 = if a < i { a } else { a + 1 };
                assert(self.cursors@[a] == before[a0]);
                assert(before[a0].id != before[i as int].id);
            }
            lemma_cursor_index(self.cursors@, id);
        }
        let size = match batch_size {
            Some(n) => n,
            None => if cursor.batch_size == 0 {
                FALLBACK_BATCH_SIZE
            } else {
                cursor.batch_size
            },
        };
        let Cursor { id: cid, namespace, remaining, batch_size: own_size, last_used: _ } = cursor;
        let mut first = remaining;
        if first.len() <= size {
            assert(docs_view(first@).take(first@.len() as int) =~= docs_view(first@));
            return Ok(Batch { documents: first, cursor_id: 0, namespace });
        }
        let rest = first.split_off(size);
        proof {
            assert(docs_view(first@) =~= docs_view(remaining@).take(size as int));
            assert(docs_view(rest@) =~= docs_view(remaining@).skip(size as int));
        }
        let ns = namespace.clone();
        self.cursors.insert(
            i,
            Cursor { id: cid, namespace, remaining: rest, batch_size: own_size, last_used: now },
        );
        proof {
            assert forall|a: int, b: int| 0 <= a < b < self.cursors@.len() implies (
            #[trigger] self.cursors@[a]).id != (#[trigger] self.cursors@[b]).id by {
                if a != i {
                    assert(self.cursors@[a] == before[a]);
                }
                if b != i {
                    assert(self.cursors@[b] == before[b]);
                }
            }
            assert forall|j: int| 0 <= j < before.len() && j != i implies self.cursors@[j]
                == before[j] by {}
        }
        Ok(Batch { documents: first, cursor_id: id, namespace: ns })
    }

    /// Closes the cursor with the given id. Returns whether one was open.
    pub fn kill(&mut self, id: u64) -> (r: bool)
        requires
            old(self).wf(),
        ensures
            final(self).wf(),
            final(self).next_id == old(self).next_id,
            r == is_open(old(self).cursors@, id),
            !is_open(final(self).cursors@, id),
            r ==> final(self).cursors@ == old(self).cursors@.remove(
                cursor_index(old(self).cursors@, id),
            ),
            !r ==> final(self).cursors@ == old(self).cursors@,
            forall|x: u64|
                is_open(final(self).cursors@, x) ==> is_open(old(self).cursors@, x),
    {
        match self.find(id) {
            None => false,
            Some(i) => {
                let ghost before = self.cursors@;
                let _ = self.cursors.remove(i);
                proof {
                    assert forall|a: int, b: int| 0 <= a < b < self.cursors@.len() implies (
                    #[trigger] self.cursors@[a]).id != (#[trigger] self.cursors@[b]).id by {
                        let a0 = if a < i { a } else { a + 1 };
                        let b0 = if b < i { b } else { b + 1 };
                        assert(self.cursors@[a] == before[a0]);
                        assert(self.cursors@[b] == before[b0]);
                    }
                    assert forall|a: int| 0 <= a < self.cursors@.len() implies (
                    #[trigger] self.cursors@[a]).id != id by {
                        let a0 = if a < i { a } else { a + 1 };
                        assert(self.cursors@[a] == before[a0]);
                        assert(before[a0].id != before[i as int].id);
                    }
                    lemma_cursor_index(self.cursors@, id);
                    assert forall|x: u64| is_open(self.cursors@, x) implies is_open(before, x) by {
                        lemma_cursor_index(self.cursors@, x);
                        let j = cursor_index(self.cursors@, x);
                        let j0 = if j < i { j } else { j + 1 };
                        assert(self.cursors@[j] == before[j0]);
                        lemma_cursor_index(before, x);
                    }
                }
                true
            },
        }
    }

    /// Closes the cursors with the given ids. Returns the ids of those that
    /// were open and have been closed, and the ids that named no open
    /// cursor, each list in the order of `ids`.
    pub fn kill_cursors(&mut self, ids: &Vec<u64>) -> (r: (Vec<u64>, Vec<u64>))
        requires
            old(self).wf(),
        ensures
            final(self).wf(),
            final(self).next_id == old(self).next_id,
            (final(self).cursors@, r.0@, r.1@) == killed_from(
                old(self).cursors@,
                ids@,
                0,
                Seq::empty(),
                Seq::empty(),
            ),
            forall|k: int| 0 <= k < ids@.len() ==> !is_open(final(self).cursors@, #[trigger] ids@[k]),
            forall|id: u64|
                is_open(final(self).cursors@, id) ==> is_open(old(self).cursors@, id),
    {
        let mut killed: Vec<u64> = Vec::new();
        let mut not_found: Vec<u64> = Vec::new();
        let mut k: usize = 0;
        while k < ids.len()
            invariant
                k <= ids.len(),
                self.wf(),
                self.next_id == old(self).next_id,
                killed_from(self.cursors@, ids@, k as int, killed@, not_found@) == killed_from(
                    old(self).cursors@,
                    ids@,
                    0,
                    Seq::empty(),
                    Seq::empty(),
                ),
                forall|j: int| 0 <= j < k ==> !is_open(self.cursors@, #[trigger] ids@[j]),
                forall|id: u64|
                    is_open(self.cursors@, id) ==> is_open(old(self).cursors@, id),
            decreases ids.len() - k,
        {
            let id = ids[k];
            let was_open = self.kill(id);
            if was_open {
                killed.push(id);
            } else {
                not_found.push(id);
            }
            k = k + 1;
        }
        (killed, not_found)
    }

    /// Closes the cursors that were last used more than `timeout`
    /// milliseconds before `now`. Returns how many were closed. The
    /// cursors that stay keep their order.
    pub fn reap(&mut self, now: u64, timeout: u64) -> (n: usize)
        requires
            old(self).wf(),
        ensures
            final(self).wf(),
            final(self).next_id == old(self).next_id,
            final(self).cursors@ == fresh_cursors(
                old(self).cursors@,
                now,
                timeout,
                old(self).cursors@.len() as int,
            ),
            n == old(self).cursors@.len() - final(self).cursors@.len(),
    {
        let mut rest: Vec<Cursor> = Vec::new();
        core::mem::swap(&mut rest, &mut self.cursors);
        let ghost all = rest@;
        let total = rest.len();
        let mut kept: Vec<Cursor> = Vec::new();
        let mut i: usize = 0;
        while rest.len() > 0
            invariant
                i + rest@.len() == all.len(),
                all.len() == total,
                rest@ == all.skip(i as int),
                kept@ == fresh_cursors(all, now, timeout, i as int),
                kept@.len() <= i,
            decreases rest@.len(),
        {
            let c = rest.remove(0);
            assert(c == all[i as int]);
            assert(rest@ =~= all.skip(i as int + 1));
            let idle: u64 = if now >= c.last_used {
                now - c.last_used
            } else {
                0
            };
            if idle <= timeout {
                kept.push(c);
            }
            i = i + 1;
        }
        let n = total - kept.len();
        self.cursors = kept;
        proof {
            lemma_fresh_cursors(all, now, timeout, all.len() as int);
        }
        n
    }

    /// Closes every cursor, as when the connection ends.
    pub fn close_all(&mut self) -> (n: usize)
        ensures
            final(self).cursors@.len() == 0,
            final(self).next_id == old(self).next_id,
            n == old(self).cursors@.len(),
            old(self).wf() ==> final(self).wf(),
    {
        let n = self.cursors.len();
        self.cursors.clear();
        n
    }
}

/// Cursor exhaustion: once a cursor has handed out its last batch, with the
/// id zero, no cursor is open under its id, so that asking it for more
/// gives `CursorNotFound`; and zero never names a cursor.
pub proof fn lemma_exhausted_cursor_is_gone(r: CursorRegistry, id: u64)
    requires
        r.wf(),
    ensures
        !is_open(r.cursors@, 0),
        !is_open(r.cursors@, id) ==> forall|j: int|
            0 <= j < r.cursors@.len() ==> (#[trigger] r.cursors@[j]).id != id,
{
    lemma_cursor_index(r.cursors@, 0);
    lemma_cursor_index(r.cursors@, id);
}

impl CursorRegistry {
    /// Whether the registry is consistent.
    pub fn is_consistent(&self) -> (r: bool)
        ensures
            r == self.wf(),
    {
        if self.next_id < 1 {
            return false;
        }
        let mut i: usize = 0;
        while i < self.cursors.len()
            invariant
                i <= self.cursors.len(),
                self.next_id >= 1,
                forall|a: int|
                    0 <= a < i ==> {
                        &&& 0 < (#[trigger] self.cursors@[a]).id < self.next_id
                        &&& self.cursors@[a].remaining@.len() > 0
                    },
                forall|a: int, b: int|
                    0 <= a < b < i ==> (#[trigger] self.cursors@[a]).id != (
                    #[trigger] self.cursors@[b]).id,
            decreases self.cursors.len() - i,
        {
            let c = &self.cursors[i];
            if c.id == 0 || c.id >= self.next_id || c.remaining.len() == 0 {
                return false;
            }
            let mut j: usize = 0;
            while j < i
                invariant
                    j <= i < self.cursors.len(),
                    forall|a: int| 0 <= a < j ==> (#[trigger] self.cursors@[a]).id != c.id,
                    c == &self.cursors@[i as int],
                decreases i - j,
            {
                if self.cursors[j].id == c.id {
                    assert(self.cursors@[j as int].id == self.cursors@[i as int].id);
                    return false;
                }
                j = j + 1;
            }
            i = i + 1;
        }
        true
    }
}

} // verus!
