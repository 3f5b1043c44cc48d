//! The notifier: the periodic unsolicited push of the status value.
//!
//! It runs strictly inside one session.  Each period it stores the announced
//! value as the status characteristic's current value and asks the link to
//! push it; the first failed push (the peer is gone) stops it for good —
//! it never retries against a dead connection.

use vstd::prelude::*;

use crate::attributes::AttributeTable;
use crate::attributes::lookup;

verus! {

/// The notifier's lifecycle state.  `Stopped` is terminal.
#[derive(Clone, Copy, PartialEq, Eq, Structural, Debug)]
pub enum NotifierState {
    Running,
    Stopped,
}

/// One session's notifier, bound to the notify-capable characteristic it
/// announces.
pub struct Notifier {
    pub state: NotifierState,
    /// Handle of the characteristic whose value is pushed.
    pub handle: u16,
    /// The value announced on every push: the device reports itself alive.
    pub announced: bool,
}

/// How many pushes a notifier attempts when its successive send attempts
/// come out as `results` (`true` = delivered): every delivered push is
/// followed by another attempt; the first failure is the last attempt.
pub open spec fn push_attempts(results: Seq<bool>) -> nat
    decreases results.len(),
{
    if results.len() == 0 {
        0
    } else if results[0] {
        1 + push_attempts(results.drop_first())
    } else {
        1
    }
}

/// Once a push has failed, no later outcome adds an attempt: the count stops
/// at the first failure.
pub proof fn lemma_no_attempts_after_failure(results: Seq<bool>, i: int)
    requires
        0 <= i < results.len(),
        !results[i],
    ensures
        push_attempts(results) <= i + 1,
    decreases i,
{
    if results[0] {
        assert(results.drop_first()[i - 1] == results[i]);
        lemma_no_attempts_after_failure(results.drop_first(), i - 1);
    }
}

impl Notifier {
    /// A fresh notifier for one session, announcing `true` — the device is
    /// alive — on the given notify-capable handle.
    pub fn new(handle: u16) -> (r: Notifier)
        ensures
            r.state is Running,
            r.handle == handle,
            r.announced == true,
    {
        Notifier { state: NotifierState::Running, handle, announced: true }
    }

    /// Whether another push attempt is due.
    pub fn wants_push(&self) -> (r: bool)
        ensures
            r == (self.state is Running),
    {
        match self.state {
            NotifierState::Running => true,
            NotifierState::Stopped => false,
        }
    }

    /// Stage one push: store the announced value as the characteristic's
    /// current value and hand back the value to send, so the pushed value is
    /// exactly the current value at a real point in time.
    pub fn prepare_push(&self, table: &mut AttributeTable) -> (v: bool)
        requires
            old(table).wf(),
        ensures
            final(table).wf(),
            v == self.announced,
            lookup(old(table)@, self.handle) is Some ==> final(table).spec_read(self.handle) == Some(v),
            forall|h2: u16| h2 != self.handle ==> lookup(final(table)@, h2) == lookup(old(table)@, h2),
            lookup(old(table)@, self.handle) is None ==> final(table)@ =~= old(table)@,
    {
        let v = self.announced;
        let _ = table.set_value(self.handle, v);
        v
    }

    /// Record the outcome of a push attempt.  A delivered push keeps the
    /// notifier running; a failed one stops it for good.
    pub fn record_push(&mut self, delivered: bool)
        requires
            old(self).state is Running,
        ensures
            final(self).handle == old(self).handle,
            final(self).announced == old(self).announced,
            final(self).state == (if delivered { NotifierState::Running } else {
                NotifierState::Stopped
            }),
    {
        if !delivered {
            self.state = NotifierState::Stopped;
        }
    }

    /// The notifier's whole life against a given sequence of send outcomes:
    /// push while running, record each outcome, stop at the first failure.
    /// Returns the number of attempts made, which never passes the first
    /// failure.
    pub fn run(&mut self, table: &mut AttributeTable, results: &Vec<bool>) -> (n: usize)
        requires
            old(self).state is Running,
            old(table).wf(),
        ensures
            final(table).wf(),
            n == push_attempts(results@),
            final(self).handle == old(self).handle,
            (final(self).state is Stopped) == (exists|k: int|
                0 <= k < results@.len() && !results@[k]),
    {
        let len = results.len();
        let mut k: usize = 0;
        proof {
            assert(results@.take(len as int) =~= results@);
        }
        while k < len
            invariant_except_break
                k <= len,
                len == results@.len(),
                results@.take(len as int) == results@,
                self.state is Running,
                self.handle == old(self).handle,
                self.announced == old(self).announced,
                table.wf(),
                k == push_attempts(results@.take(k as int)),
                forall|j: int| 0 <= j < k ==> results@[j],
            ensures
                table.wf(),
                self.handle == old(self).handle,
                k == push_attempts(results@),
                (self.state is Stopped) == (exists|j: int| 0 <= j < results@.len() && !results@[j]),
            decreases len - k,
        {
            let _v = self.prepare_push(table);
            let delivered = results[k];
            self.record_push(delivered);
            k = k + 1;
            if !delivered {
                proof {
                    lemma_attempts_cut(results@, k as int);
                    assert(!results@[(k - 1) as int]);
                }
                break;
            }
            proof {
                lemma_attempts_grow(results@, k as int);
            }
        }
        k
    }
}

/// A fully delivered prefix of length `k` makes exactly `k` attempts.
pub proof fn lemma_attempts_grow(results: Seq<bool>, k: int)
    requires
        0 < k <= results.len(),
        forall|j: int| 0 <= j < k ==> results[j],
    ensures
        push_attempts(results.take(k)) == k,
    decreases k,
{
    let t = results.take(k);
    assert(results[0]);
    assert(t[0] == results[0]);
    assert(push_attempts(t) == 1 + push_attempts(t.drop_first()));
    if k == 1 {
        assert(t.drop_first() =~= Seq::<bool>::empty());
        assert(push_attempts(t.drop_first()) == 0);
    } else {
        assert(t.drop_first() =~= results.drop_first().take(k - 1));
        assert forall|j: int| 0 <= j < k - 1 implies results.drop_first()[j] by {
            assert(results.drop_first()[j] == results[j + 1]);
        }
        lemma_attempts_grow(results.drop_first(), k - 1);
    }
}

/// A delivered run of `k - 1` pushes ending in a failure at `k - 1` makes
/// exactly `k` attempts in total, whatever would come later.
pub proof fn lemma_attempts_cut(results: Seq<bool>, k: int)
    requires
        0 < k <= results.len(),
        forall|j: int| 0 <= j < k - 1 ==> results[j],
        !results[k - 1],
    ensures
        push_attempts(results) == k,
    decreases k,
{
    if k == 1 {
    } else {
        assert forall|j: int| 0 <= j < k - 2 implies results.drop_first()[j] by {
            assert(results.drop_first()[j] == results[j + 1]);
        }
        assert(results.drop_first()[k - 2] == results[k - 1]);
        lemma_attempts_cut(results.drop_first(), k - 1);
    }
}

} // verus!
