//! The health service: one notify-capable status characteristic.

use vstd::prelude::*;

use crate::attributes::AttributeEntry;
use crate::uuid_bytes::be_byte;
use crate::uuid_bytes::uuid_16;

verus! {

pub const HEALTH_SERVICE_UUID: u128 = 0xc7d9a5b06c1a4b2c9b3a3d45e6a10000;

pub const HEALTH_STATUS_CHAR_UUID: u128 = 0xc7d9a5b06c1a4b2c9b3a3d45e6a10001;

/// The health service: its status characteristic is readable (a read of it
/// triggers the notifier) and notify-capable.
pub struct HealthService {
    pub status_handle: u16,
}

impl HealthService {
    /// A service bound to the given status handle.
    pub fn new(status_handle: u16) -> (r: HealthService)
        ensures
            r.status_handle == status_handle,
    {
        HealthService { status_handle }
    }

    /// The attribute-table entry backing the status characteristic.  Its
    /// value resets to the hard-coded default on every power cycle.
    pub fn status_entry(&self) -> (e: AttributeEntry)
        ensures
            e == (AttributeEntry {
                handle: self.status_handle,
                readable: true,
                writable: false,
                notifiable: true,
                value: false,
            }),
    {
        AttributeEntry {
            handle: self.status_handle,
            readable: true,
            writable: false,
            notifiable: true,
            value: false,
        }
    }

    /// The two-byte short identifier of the health service.
    pub fn service_uuid_16() -> (r: [u8; 2])
        ensures
            r@ == seq![0xb0u8, 0xa5u8],
    {
        let r = uuid_16(HEALTH_SERVICE_UUID);
        proof {
            assert((0xc7d9a5b06c1a4b2c9b3a3d45e6a10000u128 >> 96) & 0xff == 0xb0) by (bit_vector);
            assert((0xc7d9a5b06c1a4b2c9b3a3d45e6a10000u128 >> 104) & 0xff == 0xa5) by (bit_vector);
            assert(be_byte(HEALTH_SERVICE_UUID, 3) == 0xb0);
            assert(be_byte(HEALTH_SERVICE_UUID, 2) == 0xa5);
            assert(r@ =~= seq![0xb0u8, 0xa5u8]);
        }
        r
    }
}

} // verus!
