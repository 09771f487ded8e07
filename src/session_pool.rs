//! Bounded pool of engine sessions. A request checks a session out, uses it
//! alone, and checks it in again on every exit path; when every session is
//! out the pool says so at once, and the caller decides how long to wait.
use vstd::prelude::*;

verus! {

/// Which of a fixed number of sessions are checked out.
pub struct SessionPool {
    in_use: Vec<bool>,
}

impl View for SessionPool {
    type V = Seq<bool>;

    closed spec fn view(&self) -> Seq<bool> {
        self.in_use@
    }
}

/// The number of `true` entries of `s`.
pub open spec fn count_busy(s: Seq<bool>) -> nat
    decreases s.len(),
{
    if s.len() == 0 {
        0
    } else {
        count_busy(s.drop_last()) + if s.last() {
            1nat
        } else {
            0nat
        }
    }
}

proof fn lemma_count_busy_update(s: Seq<bool>, i: int, b: bool)
    requires
        0 <= i < s.len(),
    ensures
        count_busy(s.update(i, b)) + (if s[i] {
            1nat
        } else {
            0nat
        }) == count_busy(s) + (if b {
            1nat
        } else {
            0nat
        }),
    decreases s.len(),
{
    if i == s.len() - 1 {
        assert(s.update(i, b).drop_last() =~= s.drop_last());
    } else {
        lemma_count_busy_update(s.drop_last(), i, b);
        assert(s.update(i, b).drop_last() =~= s.drop_last().update(i, b));
    }
}

impl SessionPool {
    /// A pool of `size` sessions, none checked out.
    pub fn new(size: usize) -> (r: SessionPool)
        ensures
            r@ == Seq::new(size as nat, |_i: int| false),
    {
        let mut in_use: Vec<bool> = Vec::new();
        let mut i: usize = 0;
        while i < size
            invariant
                i <= size,
                in_use@ == Seq::new(i as nat, |_i: int| false),
            decreases size - i,
        {
            in_use.push(false);
            i = i + 1;
        }
        SessionPool { in_use }
    }

    /// The number of sessions in the pool.
    pub fn size(&self) -> (r: usize)
        ensures
            r == self@.len(),
    {
        self.in_use.len()
    }

    /// The number of sessions checked out.
    pub fn busy(&self) -> (r: usize)
        ensures
            r == count_busy(self@),
    {
        let mut n: usize = 0;
        let mut i: usize = 0;
        while i < self.in_use.len()
            invariant
                i <= self@.len(),
                n == count_busy(self@.take(i as int)),
                n <= i,
            decreases self@.len() - i,
        {
            proof {
                assert(self@.take(i + 1).drop_last() =~= self@.take(i as int));
            }
            if self.in_use[i] {
                n = n + 1;
            }
            i = i + 1;
        }
        proof {
            assert(self@.take(self@.len() as int) =~= self@);
        }
        n
    }

    /// Checks out the first free session, or answers `None` at once when
    /// every session is out.
    pub fn check_out(&mut self) -> (r: Option<usize>)
        ensures
            r is None <==> forall|i: int| 0 <= i < old(self)@.len() ==> old(self)@[i],
            r is None ==> final(self)@ == old(self)@,
            r matches Some(i) ==> i < old(self)@.len() && !old(self)@[i as int] && final(self)@
                == old(self)@.update(i as int, true) && forall|j: int|
                0 <= j < i ==> old(self)@[j],
            r is Some ==> count_busy(final(self)@) == count_busy(old(self)@) + 1,
    {
        let mut i: usize = 0;
        while i < self.in_use.len()
            invariant
                i <= self@.len(),
                self@ == old(self)@,
                forall|j: int| 0 <= j < i ==> self@[j],
            decreases self@.len() - i,
        {
            if !self.in_use[i] {
                self.in_use.set(i, true);
                proof {
                    lemma_count_busy_update(old(self)@, i as int, true);
                }
                return Some(i);
            }
            i = i + 1;
        }
        None
    }

    /// Returns a checked-out session to the pool; a session that is not
    /// out is refused and the pool left as it was.
    pub fn check_in(&mut self, i: usize) -> (r: bool)
        ensures
            r <==> i < old(self)@.len() && old(self)@[i as int],
            r ==> final(self)@ == old(self)@.update(i as int, false) && count_busy(final(self)@) + 1
                == count_busy(old(self)@),
            !r ==> final(self)@ == old(self)@,
    {
        if i < self.in_use.len() && self.in_use[i] {
            self.in_use.set(i, false);
            proof {
                lemma_count_busy_update(old(self)@, i as int, false);
            }
            true
        } else {
            false
        }
    }
}

/// Checking a session out and in again leaves the pool as it was.
pub proof fn lemma_check_out_in(s: Seq<bool>, i: int)
    requires
        0 <= i < s.len(),
        !s[i],
    ensures
        s.update(i, true).update(i, false) == s,
{
    assert(s.update(i, true).update(i, false) =~= s);
}

} // verus!
