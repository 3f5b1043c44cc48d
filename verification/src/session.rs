//! The connection session: one active link and its event-dispatch loop.
//!
//! A session exists from connection-accept to the disconnect notification.
//! Every event the link delivers is routed here, strictly in delivery order;
//! every event other than the disconnect draws exactly one acknowledgment,
//! and a read of the designated status characteristic triggers the notifier.

use vstd::prelude::*;

use crate::attributes::AttributeEntry;
use crate::attributes::AttributeTable;
use crate::attributes::lookup;
use crate::attributes::write_effect;
use crate::attributes::lemma_write_effect_lookup;

verus! {

/// One event delivered on an active connection.  Write payloads arrive
/// already decoded to the declared value type; malformed data is rejected by
/// the lower layer and never reaches the dispatch loop.
#[derive(Clone, Copy, PartialEq, Eq, Structural, Debug)]
pub enum ConnectionEvent {
    /// The link is gone; the reason code is diagnostic only.
    Disconnected { reason: u8 },
    /// A read request for the given handle.
    Read { handle: u16 },
    /// A write request carrying the decoded payload.
    Write { handle: u16, value: bool },
    /// Any other event; ignored but still acknowledged.
    Other,
}

/// The session's lifecycle state.  `Disconnected` is terminal.
#[derive(Clone, Copy, PartialEq, Eq, Structural, Debug)]
pub enum SessionState {
    Active,
    Disconnected,
}

/// What the dispatch loop must do after one event: whether to acknowledge
/// it, whether to start the notifier, and what the stack will serve back.
#[derive(Clone, Copy, PartialEq, Eq, Structural, Debug)]
pub struct EventOutcome {
    /// Exactly one acknowledgment is owed for every event except the
    /// disconnect notification.
    pub acknowledge: bool,
    /// The notifier starts on the first read of the status characteristic.
    pub start_notifier: bool,
    /// Whether a write request changed the table.
    pub write_applied: bool,
    /// The current value the stack serves for a read of a known handle.
    pub reply_value: Option<bool>,
}

/// One connection session.
pub struct Session {
    pub state: SessionState,
    /// The designated status characteristic: reading it triggers the
    /// notifier.
    pub status_handle: u16,
    /// Whether this session has already started its notifier.
    pub notifier_started: bool,
}

/// The table contents after one event: only an applied write changes them.
pub open spec fn event_effect(s: Seq<AttributeEntry>, ev: ConnectionEvent) -> Seq<AttributeEntry> {
    match ev {
        ConnectionEvent::Write { handle, value } => write_effect(s, handle, value),
        _ => s,
    }
}

/// How many of the delivered events the session serves: everything up to,
/// and not including, the first disconnect notification.
pub open spec fn served_len(evs: Seq<ConnectionEvent>) -> nat
    decreases evs.len(),
{
    if evs.len() == 0 {
        0
    } else if evs[0] is Disconnected {
        0
    } else {
        1 + served_len(evs.drop_first())
    }
}

/// The table contents after a session consumes `evs`, starting from `s0`:
/// the events before the first disconnect are applied in delivery order,
/// nothing after it.
pub open spec fn table_after(s0: Seq<AttributeEntry>, evs: Seq<ConnectionEvent>) -> Seq<AttributeEntry>
    decreases evs.len(),
{
    if evs.len() == 0 {
        s0
    } else if evs[0] is Disconnected {
        s0
    } else {
        table_after(event_effect(s0, evs[0]), evs.drop_first())
    }
}

/// Appending one event to a fully-served prefix extends `served_len` and
/// `table_after` by exactly that event.
pub proof fn lemma_after_snoc(s0: Seq<AttributeEntry>, evs: Seq<ConnectionEvent>, ev: ConnectionEvent)
    requires
        served_len(evs) == evs.len(),
    ensures
        served_len(evs.push(ev)) == if ev is Disconnected { evs.len() as nat } else { (evs.len() + 1) as nat },
        table_after(s0, evs.push(ev)) == if ev is Disconnected { table_after(s0, evs) } else {
            event_effect(table_after(s0, evs), ev)
        },
    decreases evs.len(),
{
    let p = evs.push(ev);
    assert(p.len() == evs.len() + 1);
    assert(p[evs.len() as int] == ev);
    if evs.len() == 0 {
        assert(p[0] == ev);
        assert(p.drop_first() =~= Seq::<ConnectionEvent>::empty());
        assert(served_len(p.drop_first()) == 0);
        if !(ev is Disconnected) {
            assert(served_len(p) == 1 + served_len(p.drop_first()));
            assert(table_after(s0, p) == table_after(event_effect(s0, ev), p.drop_first()));
        }
    } else {
        assert(p[0] == evs[0]);
        assert(!(evs[0] is Disconnected));
        assert(p.drop_first() =~= evs.drop_first().push(ev));
        assert(served_len(evs) == 1 + served_len(evs.drop_first()));
        lemma_after_snoc(event_effect(s0, evs[0]), evs.drop_first(), ev);
        assert(served_len(p) == 1 + served_len(p.drop_first()));
        assert(table_after(s0, p) == table_after(event_effect(s0, p[0]), p.drop_first()));
        assert(table_after(s0, evs) == table_after(event_effect(s0, evs[0]), evs.drop_first()));
    }
}

/// Events delivered after the disconnect change nothing: the counts and the
/// table are those of the prefix that ends at the first disconnect.
pub proof fn lemma_after_cut(s0: Seq<AttributeEntry>, evs: Seq<ConnectionEvent>, i: int)
    requires
        0 <= i < evs.len(),
        served_len(evs.take(i)) == i,
        evs[i] is Disconnected,
    ensures
        served_len(evs) == i,
        table_after(s0, evs) == table_after(s0, evs.take(i)),
    decreases i,
{
    if i == 0 {
        assert(evs.take(0) =~= Seq::<ConnectionEvent>::empty());
    } else {
        assert(evs.take(i)[0] == evs[0]);
        assert(!(evs[0] is Disconnected)) by {
            assert(served_len(evs.take(i)) == i > 0);
        }
        assert(evs.drop_first().take(i - 1) =~= evs.take(i).drop_first());
        assert(evs.drop_first()[i - 1] == evs[i]);
        lemma_after_cut(event_effect(s0, evs[0]), evs.drop_first(), i - 1);
    }
}

/// One event keeps every handle's existence, handle number and access
/// rights; only a value can change.
pub proof fn lemma_event_effect_rights(s: Seq<AttributeEntry>, ev: ConnectionEvent, h: u16)
    ensures
        match (lookup(s, h), lookup(event_effect(s, ev), h)) {
            (Some(e), Some(e2)) => e2.handle == e.handle && e2.readable == e.readable
                && e2.writable == e.writable && e2.notifiable == e.notifiable,
            (None, None) => true,
            _ => false,
        },
{
    match ev {
        ConnectionEvent::Write { handle, value } => {
            lemma_write_effect_lookup(s, handle, value);
        }
        _ => {
        }
    }
}

/// Whether an event is a write request to handle `h`.
pub open spec fn writes_to(ev: ConnectionEvent, h: u16) -> bool {
    ev matches ConnectionEvent::Write { handle, .. } && handle == h
}

/// Whether some event in `evs` is a read request for handle `h`.
pub open spec fn has_read_of(evs: Seq<ConnectionEvent>, h: u16) -> bool {
    exists|k: int| 0 <= k < evs.len() && ((#[trigger] evs[k]) matches ConnectionEvent::Read { handle }
        && handle == h)
}

/// Appending one event introduces a read of `h` exactly if that event is
/// one.
pub proof fn lemma_has_read_of_snoc(evs: Seq<ConnectionEvent>, ev: ConnectionEvent, h: u16)
    ensures
        has_read_of(evs.push(ev), h) == (has_read_of(evs, h)
            || (ev matches ConnectionEvent::Read { handle } && handle == h)),
{
    let p = evs.push(ev);
    assert(p[evs.len() as int] == ev);
    if has_read_of(evs, h) {
        let k = choose|k: int| 0 <= k < evs.len() && ((#[trigger] evs[k]) matches ConnectionEvent::Read { handle } && handle == h);
        assert(p[k] == evs[k]);
    }
    if has_read_of(p, h) {
        let k = choose|k: int| 0 <= k < p.len() && ((#[trigger] p[k]) matches ConnectionEvent::Read { handle } && handle == h);
        if k < evs.len() {
            assert(evs[k] == p[k]);
        }
    }
}

/// A run of events none of which writes to `h` leaves the value under `h`
/// alone.
pub proof fn lemma_no_write_preserves(s0: Seq<AttributeEntry>, evs: Seq<ConnectionEvent>, h: u16)
    requires
        forall|k: int| 0 <= k < evs.len() ==> !writes_to(#[trigger] evs[k], h),
    ensures
        lookup(table_after(s0, evs), h) == lookup(s0, h),
    decreases evs.len(),
{
    if evs.len() > 0 && !(evs[0] is Disconnected) {
        match evs[0] {
            ConnectionEvent::Write { handle, value } => {
                lemma_write_effect_lookup(s0, handle, value);
            }
            _ => {
            }
        }
        assert(lookup(event_effect(s0, evs[0]), h) == lookup(s0, h));
        assert forall|k: int| 0 <= k < evs.drop_first().len() implies !writes_to(
            #[trigger] evs.drop_first()[k],
            h,
        ) by {
            assert(evs.drop_first()[k] == evs[k + 1]);
        }
        lemma_no_write_preserves(event_effect(s0, evs[0]), evs.drop_first(), h);
    }
}

/// Write visibility: a served write of `v` to a writable handle `h`, with no
/// later write to `h`, leaves `v` as the current value every later read
/// returns — as long as the connection stays up through those events.
pub proof fn lemma_write_visibility(
    s0: Seq<AttributeEntry>,
    evs: Seq<ConnectionEvent>,
    i: int,
    j: int,
    h: u16,
    v: bool,
)
    requires
        0 <= i < j <= evs.len(),
        served_len(evs.take(j)) == j,
        evs[i] == (ConnectionEvent::Write { handle: h, value: v }),
        lookup(s0, h) matches Some(e) && e.writable,
        forall|k: int| i < k < j ==> !writes_to(#[trigger] evs[k], h),
    ensures
        lookup(table_after(s0, evs.take(j)), h) matches Some(e) && e.value == v,
    decreases i,
{
    let t = evs.take(j);
    assert(!(evs[0] is Disconnected)) by {
        assert(served_len(t) == j > 0);
        assert(t[0] == evs[0]);
    }
    let s1 = event_effect(s0, evs[0]);
    assert(t.drop_first() =~= evs.drop_first().take(j - 1));
    assert(served_len(evs.drop_first().take(j - 1)) == j - 1) by {
        assert(served_len(t) == 1 + served_len(t.drop_first()));
    }
    assert(table_after(s0, t) == table_after(s1, evs.drop_first().take(j - 1)));
    if i == 0 {
        assert(s1 == write_effect(s0, h, v));
        lemma_write_effect_lookup(s0, h, v);
        assert(lookup(s1, h) matches Some(e) && e.value == v);
        assert forall|k: int| 0 <= k < j - 1 implies !writes_to(
            #[trigger] evs.drop_first().take(j - 1)[k],
            h,
        ) by {
            assert(evs.drop_first().take(j - 1)[k] == evs[k + 1]);
        }
        lemma_no_write_preserves(s1, evs.drop_first().take(j - 1), h);
    } else {
        lemma_event_effect_rights(s0, evs[0], h);
        assert(evs.drop_first()[i - 1] == evs[i]);
        assert forall|k: int| i - 1 < k < j - 1 implies !writes_to(#[trigger] evs.drop_first()[k], h) by {
            assert(evs.drop_first()[k] == evs[k + 1]);
        }
        lemma_write_visibility(s1, evs.drop_first(), i - 1, j - 1, h, v);
    }
}

impl Session {
    /// A fresh session on a just-accepted connection, bound to the status
    /// characteristic whose read triggers the notifier.
    pub fn new(status_handle: u16) -> (r: Session)
        ensures
            r.state is Active,
            r.status_handle == status_handle,
            !r.notifier_started,
    {
        Session { state: SessionState::Active, status_handle, notifier_started: false }
    }

    /// Whether the session still serves events.
    pub fn is_active(&self) -> (r: bool)
        ensures
            r == (self.state is Active),
    {
        match self.state {
            SessionState::Active => true,
            SessionState::Disconnected => false,
        }
    }

    /// Serve one delivered event.
    ///
    /// The disconnect notification is a hard stop: the state becomes
    /// terminal and nothing is acknowledged.  Every other event draws
    /// exactly one acknowledgment.  A write request to a writable handle
    /// stores its payload; a read request changes nothing, and the first
    /// read of the status characteristic starts the notifier.
    pub fn handle_event(&mut self, table: &mut AttributeTable, ev: &ConnectionEvent) -> (out: EventOutcome)
        requires
            old(self).state is Active,
            old(table).wf(),
        ensures
            final(table).wf(),
            final(table)@.len() == old(table)@.len(),
            final(self).status_handle == old(self).status_handle,
            final(self).state == (if *ev is Disconnected { SessionState::Disconnected } else {
                SessionState::Active
            }),
            out.acknowledge == !(*ev is Disconnected),
            out.start_notifier == (*ev matches ConnectionEvent::Read { handle }
                && handle == old(self).status_handle && !old(self).notifier_started),
            final(self).notifier_started == (old(self).notifier_started || out.start_notifier),
            final(table)@ =~= event_effect(old(table)@, *ev),
            forall|h2: u16| !writes_to(*ev, h2) ==> #[trigger] lookup(final(table)@, h2) == lookup(
                old(table)@,
                h2,
            ),
            *ev matches ConnectionEvent::Write { handle, value } ==> (match lookup(
                old(table)@,
                handle,
            ) {
                Some(e) => lookup(final(table)@, handle) == Some(
                    (AttributeEntry {
                        handle: e.handle,
                        readable: e.readable,
                        writable: e.writable,
                        notifiable: e.notifiable,
                        value: if e.writable { value } else { e.value },
                    }),
                ),
                None => lookup(final(table)@, handle) is None,
            }),
            out.write_applied == (*ev matches ConnectionEvent::Write { handle, .. }
                && lookup(old(table)@, handle) matches Some(e) && e.writable),
            out.reply_value == (match *ev {
                ConnectionEvent::Read { handle } => old(table).spec_read(handle),
                _ => None::<bool>,
            }),
    {
        match *ev {
            ConnectionEvent::Disconnected { reason: _ } => {
                self.state = SessionState::Disconnected;
                EventOutcome {
                    acknowledge: false,
                    start_notifier: false,
                    write_applied: false,
                    reply_value: None,
                }
            }
            ConnectionEvent::Read { handle } => {
                let start = handle == self.status_handle && !self.notifier_started;
                if start {
                    self.notifier_started = true;
                }
                let reply_value = table.read(handle);
                EventOutcome { acknowledge: true, start_notifier: start, write_applied: false, reply_value }
            }
            ConnectionEvent::Write { handle, value } => {
                let write_applied = table.write(handle, value);
                EventOutcome { acknowledge: true, start_notifier: false, write_applied, reply_value: None }
            }
            ConnectionEvent::Other => {
                EventOutcome {
                    acknowledge: true,
                    start_notifier: false,
                    write_applied: false,
                    reply_value: None,
                }
            }
        }
    }

    /// The dispatch loop over a delivered event sequence: serve events in
    /// order until the first disconnect notification, acknowledging each
    /// served event exactly once, and stop hard on the disconnect.
    ///
    /// Returns the number of acknowledgments attempted, which equals the
    /// number of events served while the session was active.
    pub fn run(&mut self, table: &mut AttributeTable, events: &Vec<ConnectionEvent>) -> (acks: usize)
        requires
            old(self).state is Active,
            old(table).wf(),
        ensures
            final(table).wf(),
            final(table)@ =~= table_after(old(table)@, events@),
            acks == served_len(events@),
            final(self).status_handle == old(self).status_handle,
            (final(self).state is Disconnected) == (served_len(events@) < events@.len()),
            final(self).notifier_started == (old(self).notifier_started || has_read_of(
                events@.take(served_len(events@) as int),
                old(self).status_handle,
            )),
    {
        let n = events.len();
        let mut acks: usize = 0;
        let mut i: usize = 0;
        proof {
            assert(events@.take(n as int) =~= events@);
        }
        while i < n
            invariant_except_break
                i <= n,
                n == events@.len(),
                events@.take(n as int) == events@,
                self.state is Active,
                self.status_handle == old(self).status_handle,
                table.wf(),
                served_len(events@.take(i as int)) == i,
                acks == i,
                table@ == table_after(old(table)@, events@.take(i as int)),
                self.notifier_started == (old(self).notifier_started || has_read_of(
                    events@.take(i as int),
                    old(self).status_handle,
                )),
            ensures
                table.wf(),
                self.status_handle == old(self).status_handle,
                table@ == table_after(old(table)@, events@),
                acks == served_len(events@),
                (self.state is Disconnected) == (served_len(events@) < events@.len()),
                self.notifier_started == (old(self).notifier_started || has_read_of(
                    events@.take(served_len(events@) as int),
                    old(self).status_handle,
                )),
            decreases n - i,
        {
            let ev = events[i];
            let out = self.handle_event(table, &ev);
            if out.acknowledge {
                acks = acks + 1;
            }
            if !self.is_active() {
                proof {
                    lemma_after_cut(old(table)@, events@, i as int);
                }
                break;
            }
            proof {
                assert(events@.take((i + 1) as int) =~= events@.take(i as int).push(events@[i as int]));
                lemma_after_snoc(old(table)@, events@.take(i as int), events@[i as int]);
                lemma_has_read_of_snoc(
                    events@.take(i as int),
                    events@[i as int],
                    old(self).status_handle,
                );
            }
            i = i + 1;
        }
        acks
    }
}

} // verus!
