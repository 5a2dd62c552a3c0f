use vstd::prelude::*;

use std::sync::Arc;

use crate::error::Error;
use crate::wg::WaitGroup;

verus! {

/// The per-key record of one execution: the barrier that completion is
/// announced on, the number of duplicate observers that attached to the
/// record, and the write-once slot holding the shared result.
struct Call<T> {
    wg: WaitGroup,
    count: u32,
    result: Option<Arc<Result<T, Error>>>,
}

/// A namespace of keyed units of work with duplicate suppression: at most one
/// record exists per key, a record's result is written once and then only
/// shared, and a record stays visible until its key is explicitly forgotten.
pub struct Group<T> {
    calls: Vec<(String, Call<T>)>,
}

/// Relies on `str`'s `PartialEq`: two string slices are equal exactly when
/// their characters are.
#[verifier::external_body]
fn str_eq(a: &str, b: &str) -> (r: bool)
    ensures
        r == (a@ == b@),
{
    a == b
}

/// Relies on `Arc::clone`: the clone is a new handle to the same allocation,
/// so it holds the same value and no payload is copied.
#[verifier::external_body]
fn share<T>(v: &Arc<T>) -> (r: Arc<T>)
    ensures
        *r == **v,
{
    Arc::clone(v)
}

/// Whether `post` publishes the same state as `pre` for key `k`: registered
/// alike, and if registered, with the same observer count and stored result.
pub open spec fn key_unchanged<T>(pre: Group<T>, post: Group<T>, k: Seq<char>) -> bool {
    &&& post.contains_key(k) == pre.contains_key(k)
    &&& (pre.contains_key(k) ==> {
        &&& post.dup_count(k) == pre.dup_count(k)
        &&& post.stored_result(k) == pre.stored_result(k)
    })
}

/// Whether a step from `pre` to `post` touched nothing but key `k`.
pub open spec fn unchanged_except<T>(pre: Group<T>, post: Group<T>, k: Seq<char>) -> bool {
    forall|k2: Seq<char>| k2 != k ==> key_unchanged(pre, post, k2)
}

/// A caller attached to the already-registered record of key `k` as one more
/// duplicate observer: the stored result is untouched, the observer count
/// grew by one (wrapping at the machine bound), and no other key moved.
pub open spec fn attached_transition<T>(pre: Group<T>, post: Group<T>, k: Seq<char>) -> bool {
    &&& pre.contains_key(k)
    &&& post.contains_key(k)
    &&& post.stored_result(k) == pre.stored_result(k)
    &&& post.dup_count(k) == pre.dup_count(k).wrapping_add(1)
    &&& unchanged_except(pre, post, k)
}

/// A caller ran the operation for key `k` itself: a record was registered
/// under `k` holding outcome `out`, with no duplicate observers yet, and no
/// other key moved.
pub open spec fn fresh_transition<T>(
    pre: Group<T>,
    post: Group<T>,
    k: Seq<char>,
    out: Result<T, Error>,
) -> bool {
    &&& !pre.contains_key(k)
    &&& post.contains_key(k)
    &&& post.stored_result(k) == out
    &&& post.dup_count(k) == 0
    &&& unchanged_except(pre, post, k)
}

/// Key `k` is no longer registered, and no other key moved.
pub open spec fn forgotten_transition<T>(pre: Group<T>, post: Group<T>, k: Seq<char>) -> bool {
    &&& !post.contains_key(k)
    &&& unchanged_except(pre, post, k)
}

impl<T> Group<T> {
    /// Whether a record is registered under the key.
    pub closed spec fn contains_key(self, k: Seq<char>) -> bool {
        exists|i: int| 0 <= i < self.calls@.len() && (#[trigger] self.calls@[i]).0@ == k
    }

    /// The position of the key's record.
    spec fn idx_of(self, k: Seq<char>) -> int {
        choose|i: int| 0 <= i < self.calls@.len() && (#[trigger] self.calls@[i]).0@ == k
    }

    /// How many duplicate observers have attached to the key's record.
    pub closed spec fn dup_count(self, k: Seq<char>) -> u32 {
        self.calls@[self.idx_of(k)].1.count
    }

    /// The result stored in the key's record.
    pub closed spec fn stored_result(self, k: Seq<char>) -> Result<T, Error> {
        *self.calls@[self.idx_of(k)].1.result->Some_0
    }

    /// The registry's invariant: keys are unique, and every registered record
    /// is complete — its result slot has been written and its barrier has
    /// reached zero, so an attached observer is never released before the
    /// result is there to read.
    pub closed spec fn wf(self) -> bool {
        &&& forall|i: int, j: int|
            0 <= i < j < self.calls@.len() ==> (#[trigger] self.calls@[i]).0@ != (
            #[trigger] self.calls@[j]).0@
        &&& forall|i: int|
            0 <= i < self.calls@.len() ==> {
                let call = (#[trigger] self.calls@[i]).1;
                &&& call.result is Some
                &&& call.wg.wf()
                &&& call.wg.count() == 0
            }
    }

    /// With unique keys, a position holding key `k` is the key's position.
    proof fn lemma_present(self, k: Seq<char>, i: int)
        requires
            self.wf(),
            0 <= i < self.calls@.len(),
            self.calls@[i].0@ == k,
        ensures
            self.contains_key(k),
            self.idx_of(k) == i,
            self.dup_count(k) == self.calls@[i].1.count,
            self.stored_result(k) == *self.calls@[i].1.result->Some_0,
    {
        assert(self.contains_key(k));
        let j = self.idx_of(k);
        assert(0 <= j < self.calls@.len() && self.calls@[j].0@ == k);
        if i < j {
            assert(self.calls@[i].0@ != self.calls@[j].0@);
        }
        if j < i {
            assert(self.calls@[j].0@ != self.calls@[i].0@);
        }
    }

    /// Taking one record out keeps the registry well formed, unregisters that
    /// record's key, and publishes every other key unchanged.
    proof fn lemma_after_remove(self, post: Group<T>, i: int)
        requires
            self.wf(),
            0 <= i < self.calls@.len(),
            post.calls@ == self.calls@.remove(i),
        ensures
            post.wf(),
            !post.contains_key(self.calls@[i].0@),
            unchanged_except(self, post, self.calls@[i].0@),
    {
        let k = self.calls@[i].0@;
        let n = self.calls@.len();
        assert(post.calls@.len() == n - 1);
        assert forall|j: int| 0 <= j < n - 1 implies #[trigger] post.calls@[j] == (if j < i {
            self.calls@[j]
        } else {
            self.calls@[j + 1]
        }) by {
            assert(post.calls@[j] == self.calls@.remove(i)[j]);
        }
        assert(post.wf());
        assert forall|j: int| 0 <= j < n - 1 implies (#[trigger] post.calls@[j]).0@ != k by {
            if j < i {
                self.lemma_present(post.calls@[j].0@, j);
            } else {
                self.lemma_present(post.calls@[j].0@, j + 1);
            }
        }
        assert(!post.contains_key(k));
        assert forall|k2: Seq<char>| k2 != k implies key_unchanged(self, post, k2) by {
            if self.contains_key(k2) {
                let j = self.idx_of(k2);
                assert(0 <= j < n && self.calls@[j].0@ == k2);
                self.lemma_present(k2, j);
                let j2: int = if j < i {
                    j
                } else {
                    j - 1
                };
                assert(post.calls@[j2] == self.calls@[j]);
                post.lemma_present(k2, j2);
            } else {
                if post.contains_key(k2) {
                    let j2 = post.idx_of(k2);
                    assert(0 <= j2 < n - 1 && post.calls@[j2].0@ == k2);
                    if j2 < i {
                        assert(self.calls@[j2].0@ == k2);
                    } else {
                        assert(self.calls@[j2 + 1].0@ == k2);
                    }
                    assert(self.contains_key(k2));
                }
            }
        }
    }

    /// Registering a complete record under a key that is not yet registered
    /// keeps the registry well formed, publishes that record under its key,
    /// and publishes every other key unchanged.
    proof fn lemma_after_push(self, post: Group<T>, e: (String, Call<T>))
        requires
            self.wf(),
            !self.contains_key(e.0@),
            e.1.result is Some,
            e.1.wg.wf(),
            e.1.wg.count() == 0,
            post.calls@ == self.calls@.push(e),
        ensures
            post.wf(),
            post.contains_key(e.0@),
            post.dup_count(e.0@) == e.1.count,
            post.stored_result(e.0@) == *e.1.result->Some_0,
            unchanged_except(self, post, e.0@),
    {
        let k = e.0@;
        let n = self.calls@.len() as int;
        assert(post.calls@.len() == n + 1);
        assert(post.calls@[n] == e);
        assert forall|j: int| 0 <= j < n implies #[trigger] post.calls@[j] == self.calls@[j] by {}
        assert forall|j: int| 0 <= j < n implies (#[trigger] self.calls@[j]).0@ != k by {
            if self.calls@[j].0@ == k {
                assert(self.contains_key(k));
            }
        }
        assert(post.wf());
        post.lemma_present(k, n);
        assert forall|k2: Seq<char>| k2 != k implies key_unchanged(self, post, k2) by {
            if self.contains_key(k2) {
                let j = self.idx_of(k2);
                assert(0 <= j < n && self.calls@[j].0@ == k2);
                self.lemma_present(k2, j);
                post.lemma_present(k2, j);
            } else {
                if post.contains_key(k2) {
                    let j2 = post.idx_of(k2);
                    assert(0 <= j2 < n + 1 && post.calls@[j2].0@ == k2);
                    assert(j2 != n);
                    assert(self.calls@[j2].0@ == k2);
                    assert(self.contains_key(k2));
                }
            }
        }
    }

    /// The position of the key's record, if one is registered.
    fn find(&self, key: &str) -> (r: Option<usize>)
        requires
            self.wf(),
        ensures
            match r {
                Some(i) => {
                    &&& self.contains_key(key@)
                    &&& (i as int) < self.calls@.len()
                    &&& self.calls@[i as int].0@ == key@
                    &&& self.idx_of(key@) == i as int
                },
                None => !self.contains_key(key@),
            },
    {
        let n = self.calls.len();
        let mut i: usize = 0;
        while i < n
            invariant
                self.wf(),
                n == self.calls@.len(),
                i <= n,
                forall|j: int| 0 <= j < i ==> (#[trigger] self.calls@[j]).0@ != key@,
            decreases n - i,
        {
            if str_eq(self.calls[i].0.as_str(), key) {
                proof {
                    self.lemma_present(key@, i as int);
                }
                return Some(i);
            }
            i = i + 1;
        }
        None
    }

    /// Creates an empty registry.
    pub fn new() -> (g: Group<T>)
        ensures
            g.wf(),
            forall|k: Seq<char>| !g.contains_key(k),
    {
        Group { calls: Vec::new() }
    }

    /// Executes `func` under the key and returns its shared result, making
    /// sure that only one execution is registered for a given key at a time.
    /// A caller that finds the key already registered attaches to the
    /// existing record as a duplicate observer and receives the record's
    /// result instead of running `func`; the returned flag says whether that
    /// happened.
    pub fn exec<F: FnOnce() -> Result<T, Error>>(&mut self, key: String, func: F) -> (r: (
        Arc<Result<T, Error>>,
        bool,
    ))
        requires
            old(self).wf(),
            call_requires(func, ()),
        ensures
            final(self).wf(),
            r.1 == old(self).contains_key(key@),
            old(self).contains_key(key@) ==> {
                &&& attached_transition(*old(self), *final(self), key@)
                &&& *r.0 == old(self).stored_result(key@)
            },
            !old(self).contains_key(key@) ==> {
                &&& call_ensures(func, (), *r.0)
                &&& fresh_transition(*old(self), *final(self), key@, *r.0)
            },
    {
        let ghost pre = *self;
        match self.find(key.as_str()) {
            Some(i) => {
                let ghost ii = i as int;
                let mut entry = self.calls.remove(i);
                let ghost mid = *self;
                entry.1.count = entry.1.count.wrapping_add(1);
                entry.1.wg.wait();
                let arc = share(entry.1.result.as_ref().unwrap());
                let ghost e2 = entry;
                self.calls.push(entry);
                proof {
                    pre.lemma_present(key@, ii);
                    pre.lemma_after_remove(mid, ii);
                    mid.lemma_after_push(*self, e2);
                    lemma_unchanged_trans(pre, mid, *self, key@);
                }
                (arc, true)
            },
            None => {
                let mut call = Call { wg: WaitGroup::new(0), count: 0, result: None };
                call.wg.add(1);
                let out = func();
                let arc = Arc::new(out);
                call.result = Some(share(&arc));
                // the owner's own retirement: in this state machine there is
                // nobody left to wake, so the raised signal is not consumed
                let _wake = call.wg.done();
                let shared = call.count > 0;
                let entry = (key, call);
                let ghost e = entry;
                self.calls.push(entry);
                proof {
                    pre.lemma_after_push(*self, e);
                }
                (arc, shared)
            },
        }
    }

    /// Forgets the key: the next execution for it will run its operation
    /// rather than observe an earlier record.  Returns whether a record was
    /// registered.  Callers already attached to the old record keep their
    /// handle on its result.
    pub fn forgot(&mut self, key: &str) -> (removed: bool)
        requires
            old(self).wf(),
        ensures
            final(self).wf(),
            removed == old(self).contains_key(key@),
            forgotten_transition(*old(self), *final(self), key@),
    {
        let ghost pre = *self;
        match self.find(key) {
            Some(i) => {
                let ghost ii = i as int;
                self.calls.remove(i);
                proof {
                    pre.lemma_after_remove(*self, ii);
                }
                true
            },
            None => false,
        }
    }

    /// The number of duplicate observers attached to the key's record, or
    /// zero if the key is not registered.
    pub fn size(&self, key: &str) -> (n: u32)
        requires
            self.wf(),
        ensures
            n == (if self.contains_key(key@) {
                self.dup_count(key@)
            } else {
                0u32
            }),
    {
        match self.find(key) {
            Some(i) => self.calls[i].1.count,
            None => 0,
        }
    }
}

impl<T> Default for Group<T> {
    /// An empty registry.
    fn default() -> (g: Group<T>)
        ensures
            g.wf(),
            forall|k: Seq<char>| !g.contains_key(k),
    {
        Group::new()
    }
}

/// Publishing a key unchanged composes across two steps.
proof fn lemma_unchanged_trans<T>(a: Group<T>, b: Group<T>, c: Group<T>, k: Seq<char>)
    requires
        unchanged_except(a, b, k),
        unchanged_except(b, c, k),
    ensures
        unchanged_except(a, c, k),
{
    assert forall|k2: Seq<char>| k2 != k implies key_unchanged(a, c, k2) by {
        assert(key_unchanged(a, b, k2));
        assert(key_unchanged(b, c, k2));
    }
}

/// Forget semantics: once a key has been forgotten, a following execution for
/// it cannot attach to the old record — it must run its operation afresh, and
/// the key's record then stores that fresh outcome.
pub proof fn lemma_forgot_enables_rerun<T>(
    g0: Group<T>,
    g1: Group<T>,
    g2: Group<T>,
    k: Seq<char>,
    out: Result<T, Error>,
)
    requires
        forgotten_transition(g0, g1, k),
        attached_transition(g1, g2, k) || fresh_transition(g1, g2, k, out),
    ensures
        fresh_transition(g1, g2, k, out),
        g2.stored_result(k) == out,
{
}

/// Result sharing: after the one fresh run of key `k` stored outcome `out`,
/// any number of duplicate attachments leave the record's result exactly
/// `out` — every caller of the key observes the same value.
pub proof fn lemma_one_run_serves_all<T>(
    groups: Seq<Group<T>>,
    k: Seq<char>,
    out: Result<T, Error>,
)
    requires
        groups.len() >= 2,
        fresh_transition(groups[0], groups[1], k, out),
        forall|i: int|
            1 <= i < groups.len() - 1 ==> attached_transition(
                #[trigger] groups[i],
                groups[i + 1],
                k,
            ),
    ensures
        forall|i: int| 1 <= i < groups.len() ==> (#[trigger] groups[i]).stored_result(k) == out,
    decreases groups.len(),
{
    if groups.len() == 2 {
        assert(groups[1].stored_result(k) == out);
    } else {
        let shorter = groups.subrange(0, groups.len() - 1);
        assert forall|i: int|
            1 <= i < shorter.len() - 1 implies attached_transition(
            #[trigger] shorter[i],
            shorter[i + 1],
            k,
        ) by {
            assert(attached_transition(groups[i], groups[i + 1], k));
        }
        lemma_one_run_serves_all(shorter, k, out);
        assert forall|i: int| 1 <= i < groups.len() implies (#[trigger] groups[i]).stored_result(k)
            == out by {
            if i < groups.len() - 1 {
                assert(shorter[i] == groups[i]);
                assert(shorter[i].stored_result(k) == out);
            } else {
                assert(shorter[i - 1] == groups[i - 1]);
                assert(shorter[i - 1].stored_result(k) == out);
                assert(attached_transition(groups[i - 1], groups[i], k));
            }
        }
    }
}

/// Size accounting: a fresh run leaves zero duplicate observers, and each
/// attachment adds exactly one, so after `d` attachments the key's observer
/// count is `d` (as long as the machine bound is not crossed).
pub proof fn lemma_duplicates_add_up<T>(groups: Seq<Group<T>>, k: Seq<char>)
    requires
        groups.len() >= 1,
        groups.len() <= 0x1_0000_0000,
        groups[0].dup_count(k) == 0,
        forall|i: int|
            0 <= i < groups.len() - 1 ==> attached_transition(
                #[trigger] groups[i],
                groups[i + 1],
                k,
            ),
    ensures
        forall|i: int| 0 <= i < groups.len() ==> (#[trigger] groups[i]).dup_count(k) == i,
    decreases groups.len(),
{
    if groups.len() == 1 {
    } else {
        let shorter = groups.subrange(0, groups.len() - 1);
        assert forall|i: int|
            0 <= i < shorter.len() - 1 implies attached_transition(
            #[trigger] shorter[i],
            shorter[i + 1],
            k,
        ) by {
            assert(attached_transition(groups[i], groups[i + 1], k));
        }
        lemma_duplicates_add_up(shorter, k);
        assert forall|i: int| 0 <= i < groups.len() implies (#[trigger] groups[i]).dup_count(k)
            == i by {
            if i < groups.len() - 1 {
                assert(shorter[i] == groups[i]);
                assert(shorter[i].dup_count(k) == i);
            } else {
                assert(shorter[i - 1] == groups[i - 1]);
                assert(shorter[i - 1].dup_count(k) == i - 1);
                assert(attached_transition(groups[i - 1], groups[i], k));
            }
        }
    }
}

} // verus!
