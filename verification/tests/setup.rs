//! Startup pieces: identifiers, advertising payloads, the attribute table.

use iot::advertise::AdvertiseError;
use iot::advertise::AdvertisingDescriptor;
use iot::attributes::AttributeTable;
use iot::device::DeviceIdentity;
use iot::device::build_attribute_table;
use iot::device::fixed_address;
use iot::health::HealthService;
use iot::health::HEALTH_SERVICE_UUID;
use iot::led::LedService;
use iot::led::LED_SERVICE_UUID;
use iot::uuid_bytes::uuid_16;
use iot::uuid_bytes::uuid_to_ble_bytes;

#[test]
fn health_service_uuid_16_value() {
    assert_eq!(HealthService::service_uuid_16(), [0xb0, 0xa5]);
}

#[test]
fn led_service_uuid_16_value() {
    assert_eq!(LedService::service_uuid_16(), [0xb0, 0xa5]);
}

#[test]
fn uuid_16_matches_uuid_crate() {
    let raw = uuid::Uuid::from_u128(HEALTH_SERVICE_UUID).to_bytes_le();
    assert_eq!(uuid_16(HEALTH_SERVICE_UUID), [raw[0], raw[1]]);
    let raw = uuid::Uuid::from_u128(LED_SERVICE_UUID).to_bytes_le();
    assert_eq!(uuid_16(LED_SERVICE_UUID), [raw[0], raw[1]]);
}

#[test]
fn ble_bytes_reverse_big_endian() {
    let got = uuid_to_ble_bytes(HEALTH_SERVICE_UUID);
    let expected = [
        0x00, 0x00, 0xa1, 0xe6, 0x45, 0x3d, 0x3a, 0x9b, 0x2c, 0x4b, 0x1a, 0x6c, 0xb0, 0xa5,
        0xd9, 0xc7,
    ];
    assert_eq!(got, expected);
    let mut be = *uuid::Uuid::from_u128(HEALTH_SERVICE_UUID).as_bytes();
    be.reverse();
    assert_eq!(got, be);
}

#[test]
fn identity_is_kept() {
    let id = DeviceIdentity::new(fixed_address(), b"Trouble Example".to_vec());
    assert_eq!(id.address, [0xff, 0x8f, 0x1a, 0x05, 0xe4, 0xff]);
    assert_eq!(id.name, b"Trouble Example".to_vec());
}

#[test]
fn descriptor_rejects_empty_name() {
    let r = AdvertisingDescriptor::try_new(Vec::new(), [0xb0, 0xa5], [0xb0, 0xa5]);
    assert_eq!(r.err(), Some(AdvertiseError::EmptyName));
}

#[test]
fn descriptor_rejects_oversized_name() {
    let name = vec![b'x'; 30];
    let r = AdvertisingDescriptor::try_new(name, [0xb0, 0xa5], [0xb0, 0xa5]);
    assert_eq!(r.err(), Some(AdvertiseError::NameTooLong));
}

#[test]
fn descriptor_accepts_full_budget_name() {
    let name = vec![b'x'; 29];
    let r = AdvertisingDescriptor::try_new(name, [0xb0, 0xa5], [0xb0, 0xa5]);
    assert!(r.is_ok());
}

#[test]
fn encoded_payloads_have_documented_layout() {
    let d = AdvertisingDescriptor::try_new(b"Trouble Example".to_vec(), [0xb0, 0xa5], [0xb0, 0xa5])
        .unwrap();
    let (adv, scan) = d.encode();
    assert_eq!(adv, vec![0x02, 0x01, 0x06, 0x03, 0x03, 0xb0, 0xa5, 0x03, 0x03, 0xb0, 0xa5]);
    let mut expected_scan = vec![16, 0x09];
    expected_scan.extend_from_slice(b"Trouble Example");
    assert_eq!(scan, expected_scan);
    assert!(adv.len() <= 31 && scan.len() <= 31);
}

#[test]
fn table_starts_with_defaults() {
    let health = HealthService::new(3);
    let led = LedService::new(6);
    let t = build_attribute_table(&health, &led);
    assert_eq!(t.len(), 2);
    assert_eq!(t.read(3), Some(false));
    assert_eq!(t.read(6), Some(false));
    assert_eq!(t.read(9), None);
    assert!(t.is_notifiable(3));
    assert!(!t.is_notifiable(6));
    assert!(t.is_writable(6));
    assert!(!t.is_writable(3));
}

#[test]
fn writes_respect_access_rights() {
    let health = HealthService::new(3);
    let led = LedService::new(6);
    let mut t = build_attribute_table(&health, &led);
    assert!(t.write(6, true));
    assert_eq!(t.read(6), Some(true));
    assert!(!t.write(3, true));
    assert_eq!(t.read(3), Some(false));
    assert!(!t.write(9, true));
    assert_eq!(t.read(9), None);
}

#[test]
fn set_value_ignores_rights() {
    let health = HealthService::new(3);
    let led = LedService::new(6);
    let mut t = build_attribute_table(&health, &led);
    assert!(t.set_value(3, true));
    assert_eq!(t.read(3), Some(true));
    assert!(!t.set_value(9, true));
}

#[test]
fn empty_table_finds_nothing() {
    let t = AttributeTable::new();
    assert_eq!(t.len(), 0);
    assert_eq!(t.read(0), None);
    assert!(t.get(0).is_none());
}
