//! The migration runner's bookkeeping: which versioned schema-change scripts
//! have been applied, and which of an ordered list are still pending. The
//! scripts themselves live with the store engine outside the library; here a
//! migration is its version number. The runner applies every not-yet-applied
//! migration in the given order and records it, so a second run over the same
//! list applies nothing.

use vstd::prelude::*;

verus! {

/// The members of `avail`, in order, that `applied` does not contain.
pub open spec fn spec_pending(applied: Seq<u64>, avail: Seq<u64>) -> Seq<u64>
    decreases avail.len(),
{
    if avail.len() == 0 {
        Seq::<u64>::empty()
    } else {
        let rest = spec_pending(applied, avail.drop_last());
        if applied.contains(avail.last()) {
            rest
        } else {
            rest.push(avail.last())
        }
    }
}

/// The persisted migration history: the versions applied so far, in the
/// order they were applied, each at most once.
pub struct MigrationLog {
    applied: Vec<u64>,
}

impl View for MigrationLog {
    type V = Seq<u64>;

    closed spec fn view(&self) -> Seq<u64> {
        self.applied@
    }
}

impl MigrationLog {
    /// Well-formedness: no version is recorded twice.
    pub open spec fn wf(&self) -> bool {
        forall|i: int, j: int| 0 <= i < j < self@.len() ==> self@[i] != self@[j]
    }

    /// A fresh history: nothing applied yet.
    pub fn new() -> (r: MigrationLog)
        ensures
            r.wf(),
            r@ =~= Seq::<u64>::empty(),
    {
        MigrationLog { applied: Vec::new() }
    }

    /// The history as a store left it: the versions it recorded, in order,
    /// each at most once.
    pub fn with_applied(applied: Vec<u64>) -> (r: MigrationLog)
        requires
            forall|i: int, j: int| 0 <= i < j < applied@.len() ==> applied@[i] != applied@[j],
        ensures
            r.wf(),
            r@ == applied@,
    {
        MigrationLog { applied }
    }

    /// The versions applied so far, in order.
    pub fn applied(&self) -> (r: &Vec<u64>)
        ensures
            r@ == self@,
    {
        &self.applied
    }

    /// Whether `version` has been applied.
    pub fn is_applied(&self, version: u64) -> (r: bool)
        ensures
            r == self@.contains(version),
    {
        let n = self.applied.len();
        let mut i: usize = 0;
        while i < n
            invariant
                n == self.applied.len(),
                0 <= i <= n,
                self@ == self.applied@,
                forall|j: int| 0 <= j < i ==> self@[j] != version,
            decreases n - i,
        {
            if self.applied[i] == version {
                return true;
            }
            i = i + 1;
        }
        false
    }

    /// Runs every pending migration of `avail` (an ordered list of versions,
    /// each listed once), in order: each version not yet in the history is
    /// applied and recorded, already-applied ones are left alone. Returns the
    /// versions applied by this run, in order.
    pub fn run_pending(&mut self, avail: &Vec<u64>) -> (r: Vec<u64>)
        requires
            old(self).wf(),
            forall|i: int, j: int| 0 <= i < j < avail@.len() ==> avail@[i] != avail@[j],
        ensures
            r@ =~= spec_pending(old(self)@, avail@),
            final(self)@ =~= old(self)@ + r@,
            final(self).wf(),
    {
        let n = avail.len();
        let ghost applied0 = self@;
        let mut r: Vec<u64> = Vec::new();
        let mut i: usize = 0;
        while i < n
            invariant
                n == avail.len(),
                0 <= i <= n,
                self.wf(),
                forall|k: int, l: int| 0 <= k < l < avail@.len() ==> avail@[k] != avail@[l],
                r@ =~= spec_pending(applied0, avail@.take(i as int)),
                self@ =~= applied0 + r@,
                forall|j: int|
                    i <= j < avail@.len() ==> applied0.contains(avail@[j]) == self@.contains(
                        avail@[j],
                    ),
            decreases n - i,
        {
            let ghost pre = self@;
            let ghost rpre = r@;
            let v = avail[i];
            proof {
                assert(avail@.take(i as int + 1).drop_last() =~= avail@.take(i as int));
                assert(avail@.take(i as int + 1).last() == avail@[i as int]);
            }
            if !self.is_applied(v) {
                proof {
                    assert(!applied0.contains(v));
                    assert(spec_pending(applied0, avail@.take(i as int + 1)) =~= rpre.push(v));
                }
                self.applied.push(v);
                r.push(v);
                proof {
                    assert(self@ =~= pre.push(v));
                    assert(self@ =~= applied0 + r@);
                    assert forall|a: int, b: int|
                        0 <= a < b < self@.len() implies self@[a] != self@[b] by {
                        if b < pre.len() {
                            assert(self@[a] == pre[a] && self@[b] == pre[b]);
                        } else {
                            assert(self@[b] == v && self@[a] == pre[a]);
                            assert(pre.contains(pre[a]));
                        }
                    }
                    assert forall|j: int|
                        i + 1 <= j < avail@.len() implies applied0.contains(avail@[j])
                        == self@.contains(avail@[j]) by {
                        assert(avail@[j] != v);
                        if self@.contains(avail@[j]) {
                            let k = choose|k: int| 0 <= k < self@.len() && self@[k] == avail@[j];
                            assert(k < pre.len());
                            assert(pre.contains(avail@[j]));
                        }
                        if pre.contains(avail@[j]) {
                            let k = choose|k: int| 0 <= k < pre.len() && pre[k] == avail@[j];
                            assert(self@[k] == avail@[j]);
                            assert(self@.contains(avail@[j]));
                        }
                    }
                }
            } else {
                proof {
                    assert(applied0.contains(v));
                    assert(spec_pending(applied0, avail@.take(i as int + 1)) =~= rpre);
                }
            }
            i = i + 1;
        }
        proof {
            assert(avail@.take(n as int) =~= avail@);
        }
        r
    }
}

/// A member of either part is a member of the concatenation.
proof fn lemma_concat_contains(a: Seq<u64>, b: Seq<u64>, x: u64)
    requires
        a.contains(x) || b.contains(x),
    ensures
        (a + b).contains(x),
{
    if a.contains(x) {
        let k = choose|k: int| 0 <= k < a.len() && a[k] == x;
        assert((a + b)[k] == x);
    } else {
        let k = choose|k: int| 0 <= k < b.len() && b[k] == x;
        assert((a + b)[a.len() + k] == x);
    }
}

/// After one run, the history covers every available version: each member of
/// `avail` stands in `applied + spec_pending(applied, avail)`, which is what
/// `run_pending` leaves behind.
pub proof fn lemma_run_covers(applied: Seq<u64>, avail: Seq<u64>)
    ensures
        forall|x: u64|
            avail.contains(x) ==> #[trigger] (applied + spec_pending(applied, avail)).contains(x),
    decreases avail.len(),
{
    if avail.len() > 0 {
        let d = avail.drop_last();
        let l = avail.last();
        let p = spec_pending(applied, avail);
        let pd = spec_pending(applied, d);
        lemma_run_covers(applied, d);
        assert forall|x: u64| avail.contains(x) implies #[trigger] (applied + p).contains(x) by {
            let k = choose|k: int| 0 <= k < avail.len() && avail[k] == x;
            if applied.contains(l) {
                assert(p =~= pd);
                if k == avail.len() - 1 {
                    lemma_concat_contains(applied, p, x);
                } else {
                    assert(d[k] == x);
                    assert(d.contains(x));
                    assert((applied + spec_pending(applied, d)).contains(x));
                }
            } else {
                assert(p =~= pd.push(l));
                assert((applied + p) =~= (applied + pd).push(l));
                if k == avail.len() - 1 {
                    assert((applied + p)[(applied + p).len() - 1] == x);
                } else {
                    assert(d[k] == x);
                    assert(d.contains(x));
                    assert((applied + spec_pending(applied, d)).contains(x));
                    let m = choose|m: int|
                        0 <= m < (applied + pd).len() && (applied + pd)[m] == x;
                    assert((applied + p)[m] == x);
                }
            }
        }
    }
}

/// Idempotence: when every available version has already been applied, the
/// pending list is empty — the runner applies nothing and the history is
/// unchanged.
pub proof fn lemma_migration_idempotent(applied: Seq<u64>, avail: Seq<u64>)
    requires
        forall|x: u64| avail.contains(x) ==> applied.contains(x),
    ensures
        spec_pending(applied, avail) =~= Seq::<u64>::empty(),
    decreases avail.len(),
{
    if avail.len() > 0 {
        let d = avail.drop_last();
        assert(avail[avail.len() - 1] == avail.last());
        assert(avail.contains(avail.last()));
        assert forall|x: u64| d.contains(x) implies applied.contains(x) by {
            let k = choose|k: int| 0 <= k < d.len() && d[k] == x;
            assert(avail[k] == x);
            assert(avail.contains(x));
        }
        lemma_migration_idempotent(applied, d);
    }
}

/// Running the runner twice over the same list: the second run's pending
/// list is empty, so it applies nothing and leaves the history as the first
/// run left it.
pub proof fn lemma_second_run_applies_nothing(applied: Seq<u64>, avail: Seq<u64>)
    ensures
        spec_pending(applied + spec_pending(applied, avail), avail) =~= Seq::<u64>::empty(),
{
    lemma_run_covers(applied, avail);
    lemma_migration_idempotent(applied + spec_pending(applied, avail), avail);
}

} // verus!
