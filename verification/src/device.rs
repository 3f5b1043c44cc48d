//! Startup: the device identity and the attribute table.
//!
//! Both are built once at power-on; the identity never changes, and the
//! table's handles never change after this.

use vstd::prelude::*;

use crate::attributes::AttributeEntry;
use crate::attributes::AttributeTable;
use crate::attributes::lookup;
use crate::attributes::lemma_find_handle;
use crate::attributes::find_handle;
use crate::health::HealthService;
use crate::led::LedService;

verus! {

/// A fixed link-layer address and a human-readable advertised name,
/// immutable for the process lifetime.
pub struct DeviceIdentity {
    pub address: [u8; 6],
    pub name: Vec<u8>,
}

/// The fixed address this device uses on the link.
pub fn fixed_address() -> (r: [u8; 6])
    ensures
        r@ == seq![0xffu8, 0x8fu8, 0x1au8, 0x05u8, 0xe4u8, 0xffu8],
{
    let r = [0xffu8, 0x8fu8, 0x1au8, 0x05u8, 0xe4u8, 0xffu8];
    proof {
        assert(r@ =~= seq![0xffu8, 0x8fu8, 0x1au8, 0x05u8, 0xe4u8, 0xffu8]);
    }
    r
}

impl DeviceIdentity {
    /// An identity with a non-empty display name.
    pub fn new(address: [u8; 6], name: Vec<u8>) -> (r: DeviceIdentity)
        requires
            name@.len() > 0,
        ensures
            r.address == address,
            r.name@ == name@,
            r.name@.len() > 0,
    {
        DeviceIdentity { address, name }
    }
}

/// Build the attribute table at startup: one entry per declared
/// characteristic, each with its default value, under distinct handles.
pub fn build_attribute_table(health: &HealthService, led: &LedService) -> (t: AttributeTable)
    requires
        health.status_handle != led.val_handle,
    ensures
        t.wf(),
        t@.len() == 2,
        lookup(t@, health.status_handle) == Some(
            (AttributeEntry {
                handle: health.status_handle,
                readable: true,
                writable: false,
                notifiable: true,
                value: false,
            }),
        ),
        lookup(t@, led.val_handle) == Some(
            (AttributeEntry {
                handle: led.val_handle,
                readable: false,
                writable: true,
                notifiable: false,
                value: false,
            }),
        ),
    {
    let mut t = AttributeTable::new();
    let status = health.status_entry();
    let val = led.val_entry();
    proof {
        lemma_find_handle(t@, status.handle);
    }
    t.add(status);
    proof {
        lemma_find_handle(t@, val.handle);
    }
    t.add(val);
    proof {
        assert(t@[0] == status);
        assert(t@[1] == val);
        assert(find_handle(t@, health.status_handle) == Some(0int));
        assert(t@.drop_first() =~= seq![val]);
        assert(find_handle(seq![val], led.val_handle) == Some(0int));
        assert(find_handle(t@, led.val_handle) == Some(1int));
    }
    t
}

} // verus!
