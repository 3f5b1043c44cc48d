//! The connection lifecycle: dispatch, notifier and supervisor behaviour.

use iot::device::build_attribute_table;
use iot::health::HealthService;
use iot::led::LedService;
use iot::notifier::Notifier;
use iot::session::ConnectionEvent;
use iot::session::Session;
use iot::supervisor::Supervisor;
use iot::supervisor::SupervisorAction;
use iot::supervisor::SupervisorEvent;

const STATUS_HANDLE: u16 = 3;
const LED_HANDLE: u16 = 6;

fn fresh_table() -> iot::attributes::AttributeTable {
    build_attribute_table(&HealthService::new(STATUS_HANDLE), &LedService::new(LED_HANDLE))
}

#[test]
fn every_served_event_is_acknowledged_once() {
    let mut table = fresh_table();
    let mut session = Session::new(STATUS_HANDLE);
    let events = vec![
        ConnectionEvent::Read { handle: STATUS_HANDLE },
        ConnectionEvent::Write { handle: LED_HANDLE, value: true },
        ConnectionEvent::Other,
        ConnectionEvent::Read { handle: 40 },
    ];
    let acks = session.run(&mut table, &events);
    assert_eq!(acks, 4);
    assert!(session.is_active());
}

#[test]
fn disconnect_is_a_hard_stop() {
    let mut table = fresh_table();
    let mut session = Session::new(STATUS_HANDLE);
    let events = vec![
        ConnectionEvent::Read { handle: STATUS_HANDLE },
        ConnectionEvent::Other,
        ConnectionEvent::Disconnected { reason: 0x13 },
        ConnectionEvent::Write { handle: LED_HANDLE, value: true },
    ];
    let acks = session.run(&mut table, &events);
    assert_eq!(acks, 2);
    assert!(!session.is_active());
    // the write after the disconnect was never served
    assert_eq!(table.read(LED_HANDLE), Some(false));
}

#[test]
fn write_then_read_sees_the_written_value() {
    let mut table = fresh_table();
    let mut session = Session::new(STATUS_HANDLE);
    let write = ConnectionEvent::Write { handle: LED_HANDLE, value: true };
    let out = session.handle_event(&mut table, &write);
    assert!(out.acknowledge && out.write_applied);
    let read = ConnectionEvent::Read { handle: LED_HANDLE };
    let out = session.handle_event(&mut table, &read);
    assert_eq!(out.reply_value, Some(true));
    assert_eq!(table.read(LED_HANDLE), Some(true));
}

#[test]
fn led_write_true_is_visible_internally() {
    let mut table = fresh_table();
    let mut session = Session::new(STATUS_HANDLE);
    let out = session.handle_event(
        &mut table,
        &ConnectionEvent::Write { handle: LED_HANDLE, value: true },
    );
    assert!(out.acknowledge);
    assert_eq!(table.read(LED_HANDLE), Some(true));
}

#[test]
fn status_read_triggers_notifier_once() {
    let mut table = fresh_table();
    let mut session = Session::new(STATUS_HANDLE);
    let read = ConnectionEvent::Read { handle: STATUS_HANDLE };
    let out = session.handle_event(&mut table, &read);
    assert!(out.start_notifier);
    let out = session.handle_event(&mut table, &read);
    assert!(!out.start_notifier);
    let other_read = ConnectionEvent::Read { handle: LED_HANDLE };
    let mut session2 = Session::new(STATUS_HANDLE);
    let out = session2.handle_event(&mut table, &other_read);
    assert!(!out.start_notifier);
}

#[test]
fn unmatched_handles_are_still_acknowledged() {
    let mut table = fresh_table();
    let mut session = Session::new(STATUS_HANDLE);
    let out = session.handle_event(&mut table, &ConnectionEvent::Read { handle: 99 });
    assert!(out.acknowledge);
    assert_eq!(out.reply_value, None);
    let out = session.handle_event(&mut table, &ConnectionEvent::Write { handle: 99, value: true });
    assert!(out.acknowledge);
    assert!(!out.write_applied);
    let out = session.handle_event(&mut table, &ConnectionEvent::Other);
    assert!(out.acknowledge);
}

#[test]
fn notifier_stops_at_first_failure() {
    let mut table = fresh_table();
    let mut notifier = Notifier::new(STATUS_HANDLE);
    let results = vec![true, true, false, true, true];
    let attempts = notifier.run(&mut table, &results);
    assert_eq!(attempts, 3);
    assert!(!notifier.wants_push());
}

#[test]
fn notifier_pushes_the_current_status_value() {
    let mut table = fresh_table();
    let notifier = Notifier::new(STATUS_HANDLE);
    let v = notifier.prepare_push(&mut table);
    assert!(v);
    assert_eq!(table.read(STATUS_HANDLE), Some(true));
}

#[test]
fn supervisor_readvertises_after_disconnect() {
    let mut sup = Supervisor::new();
    assert_eq!(sup.step(SupervisorEvent::AdvertiseOk), SupervisorAction::RunSession);
    assert_eq!(sup.step(SupervisorEvent::SessionEnded), SupervisorAction::StartAdvertising);
    assert_eq!(sup.step(SupervisorEvent::AdvertiseOk), SupervisorAction::RunSession);
}

#[test]
fn supervisor_retries_failed_advertising() {
    let mut sup = Supervisor::new();
    assert_eq!(sup.step(SupervisorEvent::AdvertiseFailed), SupervisorAction::StartAdvertising);
    assert_eq!(sup.step(SupervisorEvent::AdvertiseFailed), SupervisorAction::StartAdvertising);
    assert_eq!(sup.step(SupervisorEvent::AdvertiseOk), SupervisorAction::RunSession);
}

#[test]
fn driver_failure_halts_for_good() {
    let mut sup = Supervisor::new();
    assert_eq!(sup.step(SupervisorEvent::AdvertiseOk), SupervisorAction::RunSession);
    assert_eq!(sup.step(SupervisorEvent::DriverFailed), SupervisorAction::Halt);
    assert!(sup.is_halted());
    assert_eq!(sup.step(SupervisorEvent::SessionEnded), SupervisorAction::Halt);
    assert_eq!(sup.step(SupervisorEvent::AdvertiseOk), SupervisorAction::Halt);
    assert!(sup.is_halted());
}

#[test]
fn no_second_session_while_connected() {
    let mut sup = Supervisor::new();
    assert_eq!(sup.step(SupervisorEvent::AdvertiseOk), SupervisorAction::RunSession);
    // a stray advertiser report while connected starts nothing
    assert_eq!(sup.step(SupervisorEvent::AdvertiseOk), SupervisorAction::Ignore);
    assert_eq!(sup.step(SupervisorEvent::AdvertiseFailed), SupervisorAction::Ignore);
}

#[test]
fn power_on_to_readvertise_scenario() {
    // power on: identity and table are built, the advertiser broadcasts
    let health = HealthService::new(STATUS_HANDLE);
    let led = LedService::new(LED_HANDLE);
    let mut table = build_attribute_table(&health, &led);
    let d = iot::advertise::AdvertisingDescriptor::try_new(
        b"Trouble Example".to_vec(),
        HealthService::service_uuid_16(),
        LedService::service_uuid_16(),
    )
    .unwrap();
    let (adv, scan) = d.encode();
    assert!(!adv.is_empty() && !scan.is_empty());

    // a peer connects
    let mut sup = Supervisor::new();
    assert_eq!(sup.step(SupervisorEvent::AdvertiseOk), SupervisorAction::RunSession);
    let mut session = Session::new(STATUS_HANDLE);

    // the peer reads the status handle: the session triggers the notifier
    let out = session.handle_event(&mut table, &ConnectionEvent::Read { handle: STATUS_HANDLE });
    assert!(out.start_notifier);
    let mut notifier = Notifier::new(STATUS_HANDLE);

    // two pushes of `true` are delivered; the peer then disconnects and the
    // third attempt fails: no further push is made
    let mut delivered = 0;
    for outcome in [true, true, false] {
        assert!(notifier.wants_push());
        let v = notifier.prepare_push(&mut table);
        assert!(v);
        if outcome {
            delivered += 1;
        }
        notifier.record_push(outcome);
    }
    assert_eq!(delivered, 2);
    assert!(!notifier.wants_push());

    // the session observes the disconnect and stops
    let out = session.handle_event(&mut table, &ConnectionEvent::Disconnected { reason: 0 });
    assert!(!out.acknowledge);
    assert!(!session.is_active());

    // the supervisor re-enters advertising at once
    assert_eq!(sup.step(SupervisorEvent::SessionEnded), SupervisorAction::StartAdvertising);
}

#[test]
fn supervisor_trace_actions() {
    let mut sup = Supervisor::new();
    let events = vec![
        SupervisorEvent::AdvertiseFailed,
        SupervisorEvent::AdvertiseOk,
        SupervisorEvent::SessionEnded,
        SupervisorEvent::AdvertiseOk,
        SupervisorEvent::DriverFailed,
        SupervisorEvent::SessionEnded,
    ];
    let actions = sup.run_events(&events);
    assert_eq!(
        actions,
        vec![
            SupervisorAction::StartAdvertising,
            SupervisorAction::RunSession,
            SupervisorAction::StartAdvertising,
            SupervisorAction::RunSession,
            SupervisorAction::Halt,
            SupervisorAction::Halt,
        ]
    );
    assert!(sup.is_halted());
}
