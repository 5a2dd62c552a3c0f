use vstd::prelude::*;

verus! {

/// The state of a counting rendezvous barrier with a point-to-point release
/// policy: when the counter of outstanding members reaches zero, exactly one
/// parked waiter is meant to be woken.
///
/// This type is the lock-protected core of the barrier: the counter of
/// outstanding members together with the one-bit wake signal.  A blocking
/// shell drives it under a short-hold exclusive lock and parks threads on a
/// futex word while [`should_wait`] holds; the shell must rule out the inputs
/// these methods exclude (calling [`done`] with no outstanding member is a
/// fatal misuse there, never a silent clamp).
///
/// [`should_wait`]: WaitGroup::should_wait
/// [`done`]: WaitGroup::done
pub struct WaitGroup {
    count: i32,
    signal: bool,
}

impl WaitGroup {
    /// The number of outstanding members of the group.
    pub closed spec fn count(self) -> int {
        self.count as int
    }

    /// Whether the wake signal is set: it is raised when the counter reaches
    /// zero and consumed by a waiter that resumes.
    pub closed spec fn signal(self) -> bool {
        self.signal
    }

    /// The counter never goes below zero: [`done`] demands an outstanding
    /// member.
    ///
    /// [`done`]: WaitGroup::done
    pub open spec fn wf(self) -> bool {
        0 <= self.count()
    }

    /// Creates a barrier with `n` outstanding members and no wake signal.
    pub fn new(n: u32) -> (wg: WaitGroup)
        requires
            n <= i32::MAX as u32,
        ensures
            wg.wf(),
            wg.count() == n as int,
            !wg.signal(),
    {
        WaitGroup { count: n as i32, signal: false }
    }

    /// Adds `n` members to the group.  May be called at any point of the
    /// barrier's life; only the machine bound on the counter is demanded.
    pub fn add(&mut self, n: u32)
        requires
            old(self).wf(),
            old(self).count() + n as int <= i32::MAX as int,
        ensures
            final(self).wf(),
            final(self).count() == old(self).count() + n as int,
            final(self).signal() == old(self).signal(),
    {
        self.count = self.count + (n as i32);
    }

    /// Retires exactly one member.  Demands an outstanding member: retiring
    /// more members than were added is a misuse that the blocking shell turns
    /// into a fatal assertion.  Returns whether the counter reached zero, in
    /// which case the wake signal is raised and the shell must wake one
    /// parked waiter.
    pub fn done(&mut self) -> (wake: bool)
        requires
            old(self).wf(),
            old(self).count() >= 1,
        ensures
            final(self).wf(),
            final(self).count() == old(self).count() - 1,
            wake == (final(self).count() == 0),
            final(self).signal() == (old(self).signal() || wake),
    {
        self.count = self.count - 1;
        if self.count >= 1 {
            false
        } else {
            self.signal = true;
            true
        }
    }

    /// Whether [`add`] may be called with `n`: the counter stays within the
    /// machine bound.
    ///
    /// [`add`]: WaitGroup::add
    pub fn can_add(&self, n: u32) -> (b: bool)
        ensures
            b == (self.count() + n as int <= i32::MAX as int),
    {
        (self.count as i64) + (n as i64) <= (i32::MAX as i64)
    }

    /// Whether [`done`] may be called: at least one member is outstanding.
    ///
    /// [`done`]: WaitGroup::done
    pub fn can_done(&self) -> (b: bool)
        ensures
            b == (self.count() >= 1),
    {
        self.count >= 1
    }

    /// Whether a waiter must keep blocking: the counter is still positive.
    /// The blocking shell re-checks this after every wake-up, since a futex
    /// wake only means the word may have changed.
    pub fn should_wait(&self) -> (b: bool)
        ensures
            b == (self.count() > 0),
    {
        self.count > 0
    }

    /// A waiter resumes: consumes the wake signal so that a later
    /// [`add`]/[`done`] cycle can reuse the barrier.  Only a waiter that has
    /// observed the counter at zero may resume.
    ///
    /// [`add`]: WaitGroup::add
    /// [`done`]: WaitGroup::done
    pub fn wait(&mut self)
        requires
            old(self).wf(),
            old(self).count() == 0,
        ensures
            final(self).wf(),
            final(self).count() == old(self).count(),
            !final(self).signal(),
    {
        self.signal = false;
    }
}

impl Default for WaitGroup {
    /// A barrier with no outstanding member.
    fn default() -> (wg: WaitGroup)
        ensures
            wg.wf(),
            wg.count() == 0,
            !wg.signal(),
    {
        WaitGroup::new(0)
    }
}

} // verus!
