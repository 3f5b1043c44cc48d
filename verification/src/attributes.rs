//! The attribute table: the device's characteristics, addressed by handle.
//!
//! Handles are assigned once at startup and never change; each entry carries
//! its access rights and its current value.  The table is the only state the
//! dispatch loop and the notifier share, and every mutation goes through the
//! contracts below.

use vstd::prelude::*;

verus! {

/// One characteristic: a handle, its access rights, and its current value.
#[derive(Clone, Copy, PartialEq, Eq, Structural)]
pub struct AttributeEntry {
    pub handle: u16,
    pub readable: bool,
    pub writable: bool,
    pub notifiable: bool,
    pub value: bool,
}

/// The index of the first entry with handle `h`, if any.
pub open spec fn find_handle(s: Seq<AttributeEntry>, h: u16) -> Option<int>
    decreases s.len(),
{
    if s.len() == 0 {
        None
    } else if s[0].handle == h {
        Some(0)
    } else {
        match find_handle(s.drop_first(), h) {
            Some(i) => Some(i + 1),
            None => None,
        }
    }
}

/// The entry with handle `h`, if any.
pub open spec fn lookup(s: Seq<AttributeEntry>, h: u16) -> Option<AttributeEntry> {
    match find_handle(s, h) {
        Some(i) => Some(s[i]),
        None => None,
    }
}

/// `find_handle` returns an in-range index holding `h`, preceded by no other
/// entry with handle `h`; and it returns `None` exactly when no entry has
/// handle `h`.
pub proof fn lemma_find_handle(s: Seq<AttributeEntry>, h: u16)
    ensures
        match find_handle(s, h) {
            Some(i) => 0 <= i < s.len() && s[i].handle == h
                && (forall|j: int| 0 <= j < i ==> s[j].handle != h),
            None => forall|j: int| 0 <= j < s.len() ==> s[j].handle != h,
        },
    decreases s.len(),
{
    if s.len() > 0 && s[0].handle != h {
        lemma_find_handle(s.drop_first(), h);
        match find_handle(s.drop_first(), h) {
            Some(i) => {
                assert(s.drop_first()[i] == s[i + 1]);
                assert forall|j: int| 0 <= j < i + 1 implies s[j].handle != h by {
                    if j > 0 {
                        assert(s.drop_first()[j - 1] == s[j]);
                    }
                }
            }
            None => {
                assert forall|j: int| 0 <= j < s.len() implies s[j].handle != h by {
                    if j > 0 {
                        assert(s.drop_first()[j - 1] == s[j]);
                    }
                }
            }
        }
    }
}

/// Skipping a first entry whose handle is not `h2` does not change `lookup`.
pub proof fn lemma_lookup_step(s: Seq<AttributeEntry>, h2: u16)
    requires
        s.len() > 0,
        s[0].handle != h2,
    ensures
        lookup(s, h2) == lookup(s.drop_first(), h2),
{
    lemma_find_handle(s.drop_first(), h2);
    match find_handle(s.drop_first(), h2) {
        Some(i) => {
            assert(s.drop_first()[i] == s[i + 1]);
        }
        None => {
        }
    }
}

/// Updating the entry at the index `find_handle` gives, without changing its
/// handle, moves `lookup` for that handle to the new entry and leaves lookup
/// for every other handle as it was.
pub proof fn lemma_lookup_update(s: Seq<AttributeEntry>, h: u16, e: AttributeEntry)
    requires
        find_handle(s, h) is Some,
        e.handle == h,
    ensures
        ({
            let i = find_handle(s, h)->0;
            let s2 = s.update(i, e);
            &&& find_handle(s2, h) == find_handle(s, h)
            &&& lookup(s2, h) == Some(e)
            &&& forall|h2: u16| h2 != h ==> lookup(s2, h2) == lookup(s, h2)
        }),
    decreases s.len(),
{
    let i = find_handle(s, h)->0;
    lemma_find_handle(s, h);
    let s2 = s.update(i, e);
    if i == 0 {
        assert(s2.drop_first() =~= s.drop_first());
        assert(s2[0] == e);
        assert forall|h2: u16| h2 != h implies lookup(s2, h2) == lookup(s, h2) by {
            lemma_lookup_step(s2, h2);
            lemma_lookup_step(s, h2);
        }
    } else {
        assert(s2[0] == s[0]);
        assert(s2.drop_first() =~= s.drop_first().update(i - 1, e));
        lemma_lookup_update(s.drop_first(), h, e);
        assert(lookup(s2, h) == Some(e)) by {
            lemma_lookup_step(s2, h);
        }
        assert(find_handle(s2, h) == find_handle(s, h));
        assert forall|h2: u16| h2 != h implies lookup(s2, h2) == lookup(s, h2) by {
            if s[0].handle == h2 {
                assert(find_handle(s2, h2) == Some(0int));
                assert(find_handle(s, h2) == Some(0int));
            } else {
                lemma_lookup_step(s2, h2);
                lemma_lookup_step(s, h2);
            }
        }
    }
}

/// The table after a peer's write of `v` to handle `h`: the value changes
/// only if `h` names a writable entry; rights and handles never change.
pub open spec fn write_effect(s: Seq<AttributeEntry>, h: u16, v: bool) -> Seq<AttributeEntry> {
    match find_handle(s, h) {
        Some(i) => if s[i].writable {
            s.update(
                i,
                (AttributeEntry {
                    handle: s[i].handle,
                    readable: s[i].readable,
                    writable: s[i].writable,
                    notifiable: s[i].notifiable,
                    value: v,
                }),
            )
        } else {
            s
        },
        None => s,
    }
}

/// How a write changes `lookup`: the written entry keeps its handle and
/// rights and takes the new value if writable; every other handle is
/// untouched.
pub proof fn lemma_write_effect_lookup(s: Seq<AttributeEntry>, h: u16, v: bool)
    ensures
        forall|h2: u16| h2 != h ==> lookup(write_effect(s, h, v), h2) == lookup(s, h2),
        match lookup(s, h) {
            Some(e) => lookup(write_effect(s, h, v), h) == Some(
                (AttributeEntry {
                    handle: e.handle,
                    readable: e.readable,
                    writable: e.writable,
                    notifiable: e.notifiable,
                    value: if e.writable { v } else { e.value },
                }),
            ),
            None => lookup(write_effect(s, h, v), h) is None,
        },
{
    lemma_find_handle(s, h);
    match find_handle(s, h) {
        Some(i) => {
            if s[i].writable {
                lemma_lookup_update(
                    s,
                    h,
                    (AttributeEntry {
                        handle: s[i].handle,
                        readable: s[i].readable,
                        writable: s[i].writable,
                        notifiable: s[i].notifiable,
                        value: v,
                    }),
                );
            }
        }
        None => {
        }
    }
}

/// The table itself: a fixed set of entries, one per declared characteristic.
pub struct AttributeTable {
    entries: Vec<AttributeEntry>,
}

impl AttributeTable {
    /// The entries, for specification purposes.
    pub closed spec fn view(self) -> Seq<AttributeEntry> {
        self.entries@
    }

    /// Well-formed: no two entries share a handle.
    pub open spec fn wf(self) -> bool {
        forall|i: int, j: int|
            0 <= i < j < self@.len() ==> (#[trigger] self@[i]).handle != (#[trigger] self@[j]).handle
    }

    /// The current value stored under handle `h`, if the handle is declared.
    pub open spec fn spec_read(self, h: u16) -> Option<bool> {
        match lookup(self@, h) {
            Some(e) => Some(e.value),
            None => None,
        }
    }

    /// An empty table.
    pub fn new() -> (r: AttributeTable)
        ensures
            r@ =~= Seq::<AttributeEntry>::empty(),
            r.wf(),
    {
        AttributeTable { entries: Vec::new() }
    }

    /// Add a characteristic.  Handles are assigned once at startup: the new
    /// handle must not collide with an existing entry.
    pub fn add(&mut self, e: AttributeEntry)
        requires
            old(self).wf(),
            lookup(old(self)@, e.handle) is None,
        ensures
            final(self)@ =~= old(self)@.push(e),
            final(self).wf(),
    {
        proof {
            lemma_find_handle(self@, e.handle);
        }
        self.entries.push(e);
    }

    /// Number of declared characteristics.
    pub fn len(&self) -> (n: usize)
        ensures
            n == self@.len(),
    {
        self.entries.len()
    }

    /// The entry with handle `h`, if any.
    pub fn get(&self, h: u16) -> (r: Option<AttributeEntry>)
        ensures
            r == lookup(self@, h),
    {
        let n = self.entries.len();
        let mut i: usize = 0;
        while i < n
            invariant
                n == self@.len(),
                0 <= i <= n,
                forall|j: int| 0 <= j < i ==> self@[j].handle != h,
            decreases n - i,
        {
            if self.entries[i].handle == h {
                proof {
                    lemma_find_handle(self@, h);
                }
                return Some(self.entries[i]);
            }
            i = i + 1;
        }
        proof {
            lemma_find_handle(self@, h);
        }
        None
    }

    /// The current value stored under handle `h`, if the handle is declared.
    /// This is the internal accessor: access rights do not restrict it.
    pub fn read(&self, h: u16) -> (r: Option<bool>)
        ensures
            r == self.spec_read(h),
    {
        match self.get(h) {
            Some(e) => Some(e.value),
            None => None,
        }
    }

    /// Whether handle `h` names a writable characteristic.
    pub fn is_writable(&self, h: u16) -> (r: bool)
        ensures
            r == (lookup(self@, h) matches Some(e) && e.writable),
    {
        match self.get(h) {
            Some(e) => e.writable,
            None => false,
        }
    }

    /// Whether handle `h` names a notify-capable characteristic.
    pub fn is_notifiable(&self, h: u16) -> (r: bool)
        ensures
            r == (lookup(self@, h) matches Some(e) && e.notifiable),
    {
        match self.get(h) {
            Some(e) => e.notifiable,
            None => false,
        }
    }

    /// Store `v` under handle `h` regardless of access rights: the internal
    /// set-accessor, also used when a notification pushes a fresh value.
    /// Returns whether the handle was declared; an unknown handle leaves the
    /// table untouched.
    pub fn set_value(&mut self, h: u16, v: bool) -> (applied: bool)
        requires
            old(self).wf(),
        ensures
            final(self).wf(),
            final(self)@.len() == old(self)@.len(),
            applied == (lookup(old(self)@, h) is Some),
            match lookup(old(self)@, h) {
                Some(e) => lookup(final(self)@, h) == Some(
                    (AttributeEntry {
                        handle: e.handle,
                        readable: e.readable,
                        writable: e.writable,
                        notifiable: e.notifiable,
                        value: v,
                    }),
                ) && final(self)@ =~= old(self)@.update(
                    find_handle(old(self)@, h)->0,
                    (AttributeEntry {
                        handle: e.handle,
                        readable: e.readable,
                        writable: e.writable,
                        notifiable: e.notifiable,
                        value: v,
                    }),
                ),
                None => final(self)@ =~= old(self)@,
            },
            forall|h2: u16| h2 != h ==> lookup(final(self)@, h2) == lookup(old(self)@, h2),
    {
        let n = self.entries.len();
        let mut i: usize = 0;
        while i < n
            invariant
                n == self@.len(),
                0 <= i <= n,
                self@ == old(self)@,
                old(self).wf(),
                forall|j: int| 0 <= j < i ==> self@[j].handle != h,
            decreases n - i,
        {
            if self.entries[i].handle == h {
                let e = self.entries[i];
                let e2 = AttributeEntry {
                    handle: e.handle,
                    readable: e.readable,
                    writable: e.writable,
                    notifiable: e.notifiable,
                    value: v,
                };
                proof {
                    lemma_find_handle(self@, h);
                    assert(find_handle(self@, h) == Some(i as int));
                    lemma_lookup_update(self@, h, e2);
                }
                self.entries.set(i, e2);
                proof {
                    assert(self@ =~= old(self)@.update(i as int, e2));
                    assert(forall|j: int| 0 <= j < self@.len()
                        ==> (#[trigger] self@[j]).handle == old(self)@[j].handle);
                }
                return true;
            }
            i = i + 1;
        }
        proof {
            lemma_find_handle(self@, h);
        }
        false
    }

    /// Apply a peer's write request: store `v` under `h` only if `h` names a
    /// writable characteristic.  Returns whether the write was applied; a
    /// non-writable or unknown handle leaves the table untouched.
    pub fn write(&mut self, h: u16, v: bool) -> (applied: bool)
        requires
            old(self).wf(),
        ensures
            final(self).wf(),
            final(self)@.len() == old(self)@.len(),
            applied == (lookup(old(self)@, h) matches Some(e) && e.writable),
            applied ==> final(self).spec_read(h) == Some(v),
            !applied ==> final(self)@ =~= old(self)@,
            forall|h2: u16| h2 != h ==> lookup(final(self)@, h2) == lookup(old(self)@, h2),
            match lookup(old(self)@, h) {
                Some(e) => lookup(final(self)@, h) == Some(
                    (AttributeEntry {
                        handle: e.handle,
                        readable: e.readable,
                        writable: e.writable,
                        notifiable: e.notifiable,
                        value: if e.writable { v } else { e.value },
                    }),
                ),
                None => lookup(final(self)@, h) is None,
            },
            final(self)@ =~= write_effect(old(self)@, h, v),
    {
        proof {
            lemma_find_handle(self@, h);
        }
        if self.is_writable(h) {
            self.set_value(h, v)
        } else {
            let ghost e = lookup(self@, h);
            proof {
                if e is Some {
                    assert(lookup(self@, h) == Some(
                        (AttributeEntry {
                            handle: e->0.handle,
                            readable: e->0.readable,
                            writable: e->0.writable,
                            notifiable: e->0.notifiable,
                            value: e->0.value,
                        }),
                    ));
                }
            }
            false
        }
    }
}

} // verus!
