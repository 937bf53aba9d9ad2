//! The store model: the table of friend records that the repository
//! operations (`get_by_id`, `list_all`, `insert`) run against. The store
//! assigns ids itself, starting at 1 and counting up, so ids are unique and
//! never reused. This is the injected-dependency form of the durable store:
//! the process around the library keeps it in step with its own engine.

use vstd::prelude::*;

use crate::models::{Friend, FriendView, NewFriend};

verus! {

/// How a repository operation can fail. A missing row is a routine outcome,
/// kept apart from a store-level fault.
#[derive(PartialEq, Eq, Structural, Clone, Copy, Debug)]
pub enum RepoError {
    /// No row carries the requested id.
    NotFound,
    /// The store could not carry the operation out (here: the id space is
    /// exhausted).
    Fault,
}

/// The record in `rows` that carries `id`, if any: the first match, scanning
/// from the front. Under `Store::wf` at most one row can match.
pub open spec fn spec_find(rows: Seq<FriendView>, id: int) -> Option<FriendView>
    decreases rows.len(),
{
    if rows.len() == 0 {
        None::<FriendView>
    } else if rows[0].id == id {
        Some(rows[0])
    } else {
        spec_find(rows.drop_first(), id)
    }
}

pub struct Store {
    rows: Vec<Friend>,
    next_id: i32,
}

impl View for Store {
    type V = Seq<FriendView>;

    closed spec fn view(&self) -> Seq<FriendView> {
        self.rows@.map(|i: int, f: Friend| f@)
    }
}

impl Store {
    /// The id the store will assign to the next inserted record.
    pub closed spec fn next_id_spec(&self) -> int {
        self.next_id as int
    }

    /// Well-formedness: ids start at 1, every stored id lies below the next
    /// one to be assigned, and no two rows share an id.
    pub closed spec fn wf(&self) -> bool {
        &&& 1 <= self.next_id
        &&& forall|i: int| 0 <= i < self@.len() ==> 1 <= (#[trigger] self@[i]).id < self.next_id as int
        &&& forall|i: int, j: int|
            0 <= i < j < self@.len() ==> self@[i].id != self@[j].id
    }

    /// An empty store, about to assign id 1.
    pub fn new() -> (s: Store)
        ensures
            s.wf(),
            s@ =~= Seq::<FriendView>::empty(),
            s.next_id_spec() == 1,
    {
        let s = Store { rows: Vec::new(), next_id: 1 };
        proof {
            assert(s@ =~= Seq::<FriendView>::empty());
        }
        s
    }

    /// Inserts one record. The store assigns the next id and returns the full
    /// persisted record; the fields are stored exactly as given, never
    /// coerced or truncated. Fails only when the id space is exhausted, and
    /// then leaves the store unchanged.
    pub fn insert(&mut self, new: NewFriend) -> (r: Result<Friend, RepoError>)
        requires
            old(self).wf(),
        ensures
            final(self).wf(),
            match r {
                Ok(f) => {
                    &&& old(self).next_id_spec() < i32::MAX as int
                    &&& 1 <= f@.id
                    &&& f@ == (FriendView {
                        id: old(self).next_id_spec(),
                        name: new@.name,
                        email: new@.email,
                    })
                    &&& forall|i: int|
                        0 <= i < old(self)@.len() ==> old(self)@[i].id != f@.id
                    &&& final(self)@ =~= old(self)@.push(f@)
                    &&& final(self).next_id_spec() == old(self).next_id_spec() + 1
                },
                Err(e) => {
                    &&& e == RepoError::Fault
                    &&& old(self).next_id_spec() == i32::MAX as int
                    &&& final(self)@ == old(self)@
                    &&& final(self).next_id_spec() == old(self).next_id_spec()
                },
            },
    {
        if self.next_id == i32::MAX {
            return Err(RepoError::Fault);
        }
        let id = self.next_id;
        let f = Friend::new(id, new.name, new.email);
        let ghost rows0 = self@;
        self.rows.push(f.duplicate());
        self.next_id = id + 1;
        proof {
            assert(self@ =~= rows0.push(f@));
        }
        Ok(f)
    }

    /// Looks a record up by id. Returns the stored record when one row
    /// carries the id, and `NotFound` — never `Fault` — when none does.
    pub fn get_by_id(&self, id: i32) -> (r: Result<Friend, RepoError>)
        requires
            self.wf(),
        ensures
            match r {
                Ok(f) => spec_find(self@, id as int) == Some(f@),
                Err(e) => {
                    &&& e == RepoError::NotFound
                    &&& spec_find(self@, id as int) is None
                },
            },
    {
        let n = self.rows.len();
        let mut i: usize = 0;
        while i < n
            invariant
                n == self.rows.len(),
                0 <= i <= n,
                self.wf(),
                forall|j: int| 0 <= j < i ==> self@[j].id != id as int,
            decreases n - i,
        {
            if self.rows[i].id() == id {
                proof {
                    lemma_find_skip(self@, id as int, i as int);
                    assert(self@.skip(i as int)[0] == self@[i as int]);
                    assert(self@.skip(i as int).drop_first() =~= self@.skip(i as int + 1));
                }
                return Ok(self.rows[i].duplicate());
            }
            i = i + 1;
        }
        proof {
            lemma_find_skip(self@, id as int, n as int);
            assert(self@.skip(n as int) =~= Seq::<FriendView>::empty());
        }
        Err(RepoError::NotFound)
    }

    /// Every record, in store order (insertion order). An empty store yields
    /// an empty vector, not an error.
    pub fn list_all(&self) -> (r: Vec<Friend>)
        ensures
            r@.len() == self@.len(),
            forall|i: int| 0 <= i < r@.len() ==> r@[i]@ == self@[i],
    {
        let n = self.rows.len();
        let mut r: Vec<Friend> = Vec::new();
        let mut i: usize = 0;
        while i < n
            invariant
                n == self.rows.len(),
                0 <= i <= n,
                r@.len() == i,
                forall|j: int| 0 <= j < i ==> r@[j]@ == self@[j],
            decreases n - i,
        {
            r.push(self.rows[i].duplicate());
            i = i + 1;
        }
        r
    }

    /// How many records the store holds.
    pub fn count(&self) -> (r: usize)
        ensures
            r == self@.len(),
    {
        self.rows.len()
    }
}

/// Round-trip: appending a record whose id no existing row carries, and then
/// looking that id up, yields exactly the appended record. Together with the
/// contract of `insert` (which appends such a record and returns it) and the
/// contract of `get_by_id` (which returns what `spec_find` finds), an insert
/// followed by a lookup of the returned id yields the returned record: same
/// id, same name, same email.
pub proof fn lemma_insert_round_trip(rows: Seq<FriendView>, f: FriendView)
    requires
        forall|i: int| 0 <= i < rows.len() ==> (#[trigger] rows[i]).id != f.id,
    ensures
        spec_find(rows.push(f), f.id) == Some(f),
    decreases rows.len(),
{
    if rows.len() == 0 {
        assert(rows.push(f)[0] == f);
    } else {
        assert(rows.push(f)[0] == rows[0]);
        assert(rows.push(f).drop_first() =~= rows.drop_first().push(f));
        assert(forall|i: int|
            0 <= i < rows.drop_first().len() ==> (#[trigger] rows.drop_first()[i]).id != f.id);
        lemma_insert_round_trip(rows.drop_first(), f);
    }
}

/// Uniqueness: in a well-formed store no two rows share an id, so the ids
/// returned by any number of sequential inserts — each of which becomes a row
/// and is never removed or changed — are pairwise distinct.
pub proof fn lemma_store_ids_distinct(s: &Store)
    requires
        s.wf(),
    ensures
        forall|i: int, j: int| 0 <= i < j < s@.len() ==> s@[i].id != s@[j].id,
{
}

/// Scanning for an id can skip a prefix in which it does not occur.
proof fn lemma_find_skip(rows: Seq<FriendView>, id: int, i: int)
    requires
        0 <= i <= rows.len(),
        forall|j: int| 0 <= j < i ==> rows[j].id != id,
    ensures
        spec_find(rows, id) == spec_find(rows.skip(i), id),
    decreases i,
{
    if i > 0 {
        assert(rows.drop_first() =~= rows.skip(1));
        lemma_find_skip(rows.skip(1), id, i - 1);
        assert(rows.skip(1).skip(i - 1) =~= rows.skip(i));
    } else {
        assert(rows.skip(0) =~= rows);
    }
}

} // verus!
