//! The LED service: one writable control characteristic.

use vstd::prelude::*;

use crate::attributes::AttributeEntry;
use crate::uuid_bytes::be_byte;
use crate::uuid_bytes::uuid_16;

verus! {

pub const LED_SERVICE_UUID: u128 = 0xc7d9a5b06c1a4b2c9b3a3d45e6a20000;

pub const LED_STATUS_CHAR_UUID: u128 = 0xc7d9a5b06c1a4b2c9b3a3d45e6a20001;

/// The LED service: its control characteristic is write-only.
pub struct LedService {
    pub val_handle: u16,
}

impl LedService {
    /// A service bound to the given control handle.
    pub fn new(val_handle: u16) -> (r: LedService)
        ensures
            r.val_handle == val_handle,
    {
        LedService { val_handle }
    }

    /// The attribute-table entry backing the control characteristic.  Its
    /// value resets to the hard-coded default on every power cycle.
    pub fn val_entry(&self) -> (e: AttributeEntry)
        ensures
            e == (AttributeEntry {
                handle: self.val_handle,
                readable: false,
                writable: true,
                notifiable: false,
                value: false,
            }),
    {
        AttributeEntry {
            handle: self.val_handle,
            readable: false,
            writable: true,
            notifiable: false,
            value: false,
        }
    }

    /// The two-byte short identifier of the LED service.
    pub fn service_uuid_16() -> (r: [u8; 2])
        ensures
            r@ == seq![0xb0u8, 0xa5u8],
    {
        let r = uuid_16(LED_SERVICE_UUID);
        proof {
            assert((0xc7d9a5b06c1a4b2c9b3a3d45e6a20000u128 >> 96) & 0xff == 0xb0) by (bit_vector);
            assert((0xc7d9a5b06c1a4b2c9b3a3d45e6a20000u128 >> 104) & 0xff == 0xa5) by (bit_vector);
            assert(be_byte(LED_SERVICE_UUID, 3) == 0xb0);
            assert(be_byte(LED_SERVICE_UUID, 2) == 0xa5);
            assert(r@ =~= seq![0xb0u8, 0xa5u8]);
        }
        r
    }
}

} // verus!
