//! The supervisor: the top-level advertise-then-serve cycle.
//!
//! The supervisor runs the link driver concurrently with a loop that
//! advertises, hands a successful connection to a fresh session, and goes
//! back to advertising when the session ends.  A driver failure is fatal:
//! the whole group halts and nothing is scheduled again.

use vstd::prelude::*;

verus! {

/// Where the advertise-then-serve cycle stands.  `Halted` is terminal.
#[derive(Clone, Copy, PartialEq, Eq, Structural, Debug)]
pub enum Phase {
    /// No connection exists; an advertiser call is in flight.
    Advertising,
    /// Exactly one session is active.
    Connected,
    /// The link driver failed; the device is down for good.
    Halted,
}

/// What the environment reports to the supervisor.
#[derive(Clone, Copy, PartialEq, Eq, Structural, Debug)]
pub enum SupervisorEvent {
    /// The advertiser call returned a connection.
    AdvertiseOk,
    /// The advertiser call failed; the cycle retries.
    AdvertiseFailed,
    /// The active session observed its disconnect.
    SessionEnded,
    /// The link driver returned its fatal error.
    DriverFailed,
}

/// What the supervisor orders next.
#[derive(Clone, Copy, PartialEq, Eq, Structural, Debug)]
pub enum SupervisorAction {
    /// Issue one fresh advertiser call.
    StartAdvertising,
    /// Hand the new connection to a fresh session.
    RunSession,
    /// A report that cannot arise in this phase; nothing to do.
    Ignore,
    /// Stop scheduling the cycle: the device halts.
    Halt,
}

/// The next phase.  A driver failure halts from anywhere and `Halted`
/// absorbs everything; a connection is entered only from `Advertising` on a
/// successful advertiser call, and left only when the session ends.
pub open spec fn phase_step(p: Phase, ev: SupervisorEvent) -> Phase {
    match p {
        Phase::Halted => Phase::Halted,
        Phase::Advertising => match ev {
            SupervisorEvent::DriverFailed => Phase::Halted,
            SupervisorEvent::AdvertiseOk => Phase::Connected,
            _ => Phase::Advertising,
        },
        Phase::Connected => match ev {
            SupervisorEvent::DriverFailed => Phase::Halted,
            SupervisorEvent::SessionEnded => Phase::Advertising,
            _ => Phase::Connected,
        },
    }
}

/// The action the supervisor orders on an event.
pub open spec fn action_for(p: Phase, ev: SupervisorEvent) -> SupervisorAction {
    match p {
        Phase::Halted => SupervisorAction::Halt,
        Phase::Advertising => match ev {
            SupervisorEvent::DriverFailed => SupervisorAction::Halt,
            SupervisorEvent::AdvertiseOk => SupervisorAction::RunSession,
            SupervisorEvent::AdvertiseFailed => SupervisorAction::StartAdvertising,
            SupervisorEvent::SessionEnded => SupervisorAction::Ignore,
        },
        Phase::Connected => match ev {
            SupervisorEvent::DriverFailed => SupervisorAction::Halt,
            SupervisorEvent::SessionEnded => SupervisorAction::StartAdvertising,
            _ => SupervisorAction::Ignore,
        },
    }
}

/// The phase after a whole report history, starting from power-on.
pub open spec fn phase_after(evs: Seq<SupervisorEvent>) -> Phase
    decreases evs.len(),
{
    if evs.len() == 0 {
        Phase::Advertising
    } else {
        phase_step(phase_after(evs.drop_last()), evs.last())
    }
}

/// At most one connection: a session is only ever started from the
/// advertising phase, by a successful advertiser call — never while another
/// session is active — and starting it makes the phase `Connected`.
pub proof fn lemma_at_most_one_session(evs: Seq<SupervisorEvent>, i: int)
    requires
        0 <= i < evs.len(),
        action_for(phase_after(evs.take(i)), evs[i]) == SupervisorAction::RunSession,
    ensures
        phase_after(evs.take(i)) is Advertising,
        evs[i] == SupervisorEvent::AdvertiseOk,
        phase_after(evs.take(i + 1)) is Connected,
{
    assert(evs.take(i + 1).drop_last() =~= evs.take(i));
    assert(evs.take(i + 1).last() == evs[i]);
}

/// Re-advertise after disconnect: the session's end puts the cycle back
/// into the advertising phase and orders exactly one fresh advertiser call;
/// by `lemma_at_most_one_session`, no new session can begin before an
/// advertiser call succeeds.
pub proof fn lemma_readvertise_after_disconnect(evs: Seq<SupervisorEvent>, i: int)
    requires
        0 <= i < evs.len(),
        phase_after(evs.take(i)) is Connected,
        evs[i] == SupervisorEvent::SessionEnded,
    ensures
        action_for(phase_after(evs.take(i)), evs[i]) == SupervisorAction::StartAdvertising,
        phase_after(evs.take(i + 1)) is Advertising,
{
    assert(evs.take(i + 1).drop_last() =~= evs.take(i));
    assert(evs.take(i + 1).last() == evs[i]);
}

/// Every advertiser call is accounted for: the supervisor orders one only
/// when a session just ended — the single fresh call after a disconnect —
/// or when the previous call failed and the cycle retries.
pub proof fn lemma_advertise_calls_accounted(evs: Seq<SupervisorEvent>, i: int)
    requires
        0 <= i < evs.len(),
        action_for(phase_after(evs.take(i)), evs[i]) == SupervisorAction::StartAdvertising,
    ensures
        (phase_after(evs.take(i)) is Connected && evs[i] == SupervisorEvent::SessionEnded)
            || (phase_after(evs.take(i)) is Advertising && evs[i]
                == SupervisorEvent::AdvertiseFailed),
{
}

/// The halted phase is absorbing over any further reports.
pub proof fn lemma_halted_stays(evs: Seq<SupervisorEvent>, i: int, j: int)
    requires
        0 <= i <= j <= evs.len(),
        phase_after(evs.take(i)) is Halted,
    ensures
        phase_after(evs.take(j)) is Halted,
    decreases j - i,
{
    if i < j {
        assert(evs.take(i + 1).drop_last() =~= evs.take(i));
        assert(evs.take(i + 1).last() == evs[i]);
        lemma_halted_stays(evs, i + 1, j);
    }
}

/// Fatal path: once the link driver reports its error, every later phase is
/// `Halted` and every later action is `Halt` — the advertise-then-serve
/// cycle is never scheduled again.
pub proof fn lemma_driver_failure_halts(evs: Seq<SupervisorEvent>, i: int)
    requires
        0 <= i < evs.len(),
        evs[i] == SupervisorEvent::DriverFailed,
    ensures
        forall|j: int| i < j <= evs.len() ==> phase_after(#[trigger] evs.take(j)) is Halted,
        forall|j: int| i < j < evs.len() ==> action_for(
            phase_after(#[trigger] evs.take(j)),
            evs[j],
        ) == SupervisorAction::Halt,
{
    assert(evs.take(i + 1).drop_last() =~= evs.take(i));
    assert(evs.take(i + 1).last() == evs[i]);
    assert(phase_after(evs.take(i + 1)) is Halted);
    assert forall|j: int| i < j <= evs.len() implies phase_after(#[trigger] evs.take(j)) is Halted by {
        lemma_halted_stays(evs, i + 1, j);
    }
}

/// The supervisor's advertise-then-serve cycle.
pub struct Supervisor {
    pub phase: Phase,
}

impl Supervisor {
    /// Power-on: nothing is connected, the first advertiser call is due.
    pub fn new() -> (r: Supervisor)
        ensures
            r.phase is Advertising,
    {
        Supervisor { phase: Phase::Advertising }
    }

    /// Whether the cycle is still scheduled.
    pub fn is_halted(&self) -> (r: bool)
        ensures
            r == (self.phase is Halted),
    {
        match self.phase {
            Phase::Halted => true,
            _ => false,
        }
    }

    /// Take one report from the environment and order the next action.
    pub fn step(&mut self, ev: SupervisorEvent) -> (action: SupervisorAction)
        ensures
            final(self).phase == phase_step(old(self).phase, ev),
            action == action_for(old(self).phase, ev),
    {
        let action = match (self.phase, ev) {
            (Phase::Halted, _) => SupervisorAction::Halt,
            (Phase::Advertising, SupervisorEvent::DriverFailed) => SupervisorAction::Halt,
            (Phase::Advertising, SupervisorEvent::AdvertiseOk) => SupervisorAction::RunSession,
            (Phase::Advertising, SupervisorEvent::AdvertiseFailed) => SupervisorAction::StartAdvertising,
            (Phase::Advertising, SupervisorEvent::SessionEnded) => SupervisorAction::Ignore,
            (Phase::Connected, SupervisorEvent::DriverFailed) => SupervisorAction::Halt,
            (Phase::Connected, SupervisorEvent::SessionEnded) => SupervisorAction::StartAdvertising,
            (Phase::Connected, _) => SupervisorAction::Ignore,
        };
        self.phase = match (self.phase, ev) {
            (Phase::Halted, _) => Phase::Halted,
            (_, SupervisorEvent::DriverFailed) => Phase::Halted,
            (Phase::Advertising, SupervisorEvent::AdvertiseOk) => Phase::Connected,
            (Phase::Advertising, _) => Phase::Advertising,
            (Phase::Connected, SupervisorEvent::SessionEnded) => Phase::Advertising,
            (Phase::Connected, _) => Phase::Connected,
        };
        action
    }

    /// Drive the cycle over a whole report history from power-on, collecting
    /// the ordered actions: the executable form of the top-level loop body's
    /// decisions.
    pub fn run_events(&mut self, events: &Vec<SupervisorEvent>) -> (actions: Vec<SupervisorAction>)
        requires
            old(self).phase is Advertising,
        ensures
            actions@.len() == events@.len(),
            final(self).phase == phase_after(events@),
            forall|i: int| 0 <= i < events@.len() ==> actions@[i] == action_for(
                phase_after(events@.take(i)),
                events@[i],
            ),
    {
        let n = events.len();
        let mut actions: Vec<SupervisorAction> = Vec::new();
        let mut i: usize = 0;
        proof {
            assert(events@.take(0int) =~= Seq::<SupervisorEvent>::empty());
            assert(events@.take(n as int) =~= events@);
        }
        while i < n
            invariant
                i <= n,
                n == events@.len(),
                events@.take(n as int) == events@,
                self.phase == phase_after(events@.take(i as int)),
                actions@.len() == i,
                forall|j: int| 0 <= j < i ==> actions@[j] == action_for(
                    phase_after(events@.take(j)),
                    events@[j],
                ),
            decreases n - i,
        {
            let ev = events[i];
            proof {
                assert(events@.take((i + 1) as int).drop_last() =~= events@.take(i as int));
                assert(events@.take((i + 1) as int).last() == events@[i as int]);
            }
            let a = self.step(ev);
            actions.push(a);
            i = i + 1;
        }
        actions
    }
}

} // verus!
