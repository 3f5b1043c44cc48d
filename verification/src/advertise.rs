//! The advertiser's payload: what the device broadcasts while unconnected.
//!
//! The descriptor fixes the discovery flags, the two advertised service
//! identifiers and the display name, and is validated against the 31-byte
//! payload budget before any advertiser call is attempted.  The link stack's
//! own encoder turns it into the on-air bytes, through trusted wrappers
//! whose contracts state the documented layout.

use vstd::prelude::*;

use trouble_host::prelude::AdStructure;

verus! {

/// Discoverability flag: general discoverable mode.
pub const LE_GENERAL_DISCOVERABLE: u8 = 0x02;

/// Capability flag: classic transport not supported.
pub const BR_EDR_NOT_SUPPORTED: u8 = 0x04;

/// The flags this device always advertises.
pub const ADV_FLAGS: u8 = 0x02 | 0x04;

/// The advertising payload budget in bytes.
pub const PAYLOAD_CAPACITY: usize = 31;

/// Rejections of a proposed advertising descriptor.
#[derive(Clone, Copy, PartialEq, Eq, Structural, Debug)]
pub enum AdvertiseError {
    /// The display name is empty.
    EmptyName,
    /// The display name does not fit the payload budget.
    NameTooLong,
}

/// What the device broadcasts: discovery flags, the short identifiers of
/// its two services, and the display name sent in the scan response.
pub struct AdvertisingDescriptor {
    pub flags: u8,
    pub service_a: [u8; 2],
    pub service_b: [u8; 2],
    pub name: Vec<u8>,
}

/// The scan-response payload leaves two bytes for its structure header, so
/// the name may use the rest of the budget.
pub open spec fn name_fits(len: int) -> bool {
    0 < len <= PAYLOAD_CAPACITY - 2
}

/// The advertising payload: the flags structure followed by one complete
/// 16-bit service-identifier list per service.
pub open spec fn adv_payload(flags: u8, a: [u8; 2], b: [u8; 2]) -> Seq<u8> {
    seq![0x02u8, 0x01u8, flags, 0x03u8, 0x03u8, a@[0], a@[1], 0x03u8, 0x03u8, b@[0], b@[1]]
}

/// The scan-response payload: the complete-local-name structure.
pub open spec fn scan_payload(name: Seq<u8>) -> Seq<u8> {
    seq![(name.len() + 1) as u8, 0x09u8] + name
}

/// Relies on `trouble_host::prelude::AdStructure::encode_slice`: a flags
/// structure is written as `[0x02, 0x01, flags]` and a complete 16-bit
/// service list with one identifier as `[0x03, 0x03, id0, id1]`, in order.
#[verifier::external_body]
fn encode_adv_data(flags: u8, a: [u8; 2], b: [u8; 2]) -> (r: Vec<u8>)
    ensures
        r@ == adv_payload(flags, a, b),
{
    let ads = [
        AdStructure::Flags(flags),
        AdStructure::CompleteServiceUuids16(&[a]),
        AdStructure::CompleteServiceUuids16(&[b]),
    ];
    let mut buf = [0u8; 31];
    let n = AdStructure::encode_slice(&ads, &mut buf).unwrap_or(0);
    buf[..n].to_vec()
}

/// Relies on `trouble_host::prelude::AdStructure::encode_slice`: a complete
/// local name is written as `[len + 1, 0x09]` followed by the name bytes.
#[verifier::external_body]
fn encode_scan_data(name: &Vec<u8>) -> (r: Vec<u8>)
    requires
        name@.len() + 2 <= PAYLOAD_CAPACITY,
    ensures
        r@ == scan_payload(name@),
{
    let ads = [AdStructure::CompleteLocalName(name.as_slice())];
    let mut buf = [0u8; 31];
    let n = AdStructure::encode_slice(&ads, &mut buf).unwrap_or(0);
    buf[..n].to_vec()
}

impl AdvertisingDescriptor {
    /// The descriptor fits the payload budget and carries this device's
    /// flags.
    pub open spec fn wf(self) -> bool {
        &&& self.flags == ADV_FLAGS
        &&& name_fits(self.name@.len() as int)
    }

    /// Validate a proposed descriptor: the name must be non-empty and fit
    /// the payload budget beside the declared service identifiers; the
    /// returned error says which condition failed.
    pub fn try_new(name: Vec<u8>, service_a: [u8; 2], service_b: [u8; 2]) -> (r: Result<
        AdvertisingDescriptor,
        AdvertiseError,
    >)
        ensures
            r is Ok <==> name_fits(name@.len() as int),
            r matches Ok(d) ==> d.wf() && d.name@ == name@ && d.service_a == service_a
                && d.service_b == service_b && d.flags == ADV_FLAGS,
            r matches Err(e) ==> e == (if name@.len() == 0 { AdvertiseError::EmptyName } else {
                AdvertiseError::NameTooLong
            }),
    {
        if name.len() == 0 {
            Err(AdvertiseError::EmptyName)
        } else if name.len() > PAYLOAD_CAPACITY - 2 {
            Err(AdvertiseError::NameTooLong)
        } else {
            Ok(AdvertisingDescriptor { flags: ADV_FLAGS, service_a, service_b, name })
        }
    }

    /// The two on-air payloads for this descriptor, in the stack encoder's
    /// documented layout: the advertising data and the scan-response data.
    /// Both fit the payload budget.
    pub fn encode(&self) -> (r: (Vec<u8>, Vec<u8>))
        requires
            self.wf(),
        ensures
            r.0@ == adv_payload(self.flags, self.service_a, self.service_b),
            r.1@ == scan_payload(self.name@),
            r.0@.len() <= PAYLOAD_CAPACITY,
            r.1@.len() <= PAYLOAD_CAPACITY,
    {
        let adv = encode_adv_data(self.flags, self.service_a, self.service_b);
        let scan = encode_scan_data(&self.name);
        (adv, scan)
    }
}

} // verus!
