use record_contracts::event_rsvp::{EventError, EventRsvpContract, EventStatus};

fn s(text: &str) -> String {
    text.to_string()
}

fn created() -> EventRsvpContract {
    let mut c = EventRsvpContract::new();
    c.create_event(s("e1"), s("GHOST"), s("Launch"), s("Hall"), 2, 500, 30).unwrap();
    c
}

#[test]
fn event_create_then_get() {
    let c = created();
    let e = c.get_event(s("e1")).unwrap();
    assert_eq!(e.host, "GHOST");
    assert_eq!(e.title, "Launch");
    assert_eq!(e.venue, "Hall");
    assert_eq!(e.capacity, 2);
    assert_eq!(e.rsvp_count, 0);
    assert_eq!(e.confirmed_count, 0);
    assert_eq!(e.status, EventStatus::Open);
    assert_eq!(e.event_time, 500);
    assert_eq!(e.created_at, 30);
    assert_eq!(c.list_events(), vec![s("e1")]);
    assert_eq!(c.get_rsvp_count(s("e1")), 0);
    assert_eq!(c.get_rsvp_count(s("none")), 0);
}

#[test]
fn event_create_errors() {
    let mut c = created();
    assert_eq!(c.create_event(s("e2"), s("G"), s(""), s("V"), 1, 1, 0), Err(EventError::InvalidTitle));
    assert_eq!(c.create_event(s("e2"), s("G"), s("T"), s("V"), 0, 1, 0), Err(EventError::InvalidCapacity));
    assert_eq!(c.create_event(s("e2"), s("G"), s("T"), s("V"), 1, 0, 0), Err(EventError::InvalidTimestamp));
    assert_eq!(c.create_event(s("e1"), s("G"), s("T"), s("V"), 1, 1, 0), Err(EventError::AlreadyExists));
}

#[test]
fn event_capacity_is_enforced() {
    let mut c = created();
    c.rsvp_event(s("e1"), s("GA")).unwrap();
    assert_eq!(c.rsvp_event(s("e1"), s("GA")), Err(EventError::AlreadyRegistered));
    c.rsvp_event(s("e1"), s("GB")).unwrap();
    assert_eq!(c.rsvp_event(s("e1"), s("GC")), Err(EventError::CapacityReached));
    assert_eq!(c.get_rsvp_count(s("e1")), 2);
}

#[test]
fn event_confirmations_need_registration() {
    let mut c = created();
    c.rsvp_event(s("e1"), s("GA")).unwrap();
    assert_eq!(c.confirm_attendance(s("e1"), s("GA"), s("GA")), Err(EventError::Unauthorized));
    assert_eq!(c.confirm_attendance(s("e1"), s("GHOST"), s("GB")), Err(EventError::NotRegistered));
    c.confirm_attendance(s("e1"), s("GHOST"), s("GA")).unwrap();
    assert_eq!(c.confirm_attendance(s("e1"), s("GHOST"), s("GA")), Err(EventError::AlreadyConfirmed));
    assert_eq!(c.get_event(s("e1")).unwrap().confirmed_count, 1);
}

#[test]
fn event_closed_takes_no_registration() {
    let mut c = created();
    c.rsvp_event(s("e1"), s("GA")).unwrap();
    assert_eq!(c.close_event(s("e1"), s("GA")), Err(EventError::Unauthorized));
    c.close_event(s("e1"), s("GHOST")).unwrap();
    assert_eq!(c.get_event(s("e1")).unwrap().status, EventStatus::Closed);
    assert_eq!(c.rsvp_event(s("e1"), s("GB")), Err(EventError::RegistrationClosed));
    assert_eq!(c.close_event(s("e1"), s("GHOST")), Err(EventError::RegistrationClosed));
    c.confirm_attendance(s("e1"), s("GHOST"), s("GA")).unwrap();
    assert_eq!(c.get_event(s("e1")).unwrap().confirmed_count, 1);
}

#[test]
fn event_missing_and_codes() {
    let mut c = created();
    assert_eq!(c.rsvp_event(s("none"), s("GA")), Err(EventError::NotFound));
    assert_eq!(c.confirm_attendance(s("none"), s("GHOST"), s("GA")), Err(EventError::NotFound));
    assert_eq!(c.close_event(s("none"), s("GHOST")), Err(EventError::NotFound));
    assert_eq!(EventError::AlreadyConfirmed.code(), 11);
    assert_eq!(EventError::CapacityReached.code(), 8);
}

#[test]
fn event_storage_round_trip() {
    let mut c = created();
    c.rsvp_event(s("e1"), s("GA")).unwrap();
    c.rsvp_event(s("e1"), s("GB")).unwrap();
    c.confirm_attendance(s("e1"), s("GHOST"), s("GB")).unwrap();
    let ids = c.list_events();
    let events: Vec<_> = ids.iter().map(|id| c.get_event(id.clone()).unwrap()).collect();
    let reg = c.registration_pairs();
    let conf = c.confirmation_pairs();
    assert_eq!(conf, vec![(s("e1"), s("GB"))]);
    let back = EventRsvpContract::from_storage(ids.clone(), events.clone(), reg.clone(), conf.clone()).unwrap();
    assert_eq!(back.get_rsvp_count(s("e1")), 2);
    assert_eq!(back.registration_pairs(), reg);
    let stray_conf = vec![(s("e1"), s("GZ"))];
    assert!(EventRsvpContract::from_storage(ids.clone(), events.clone(), reg.clone(), stray_conf).is_none());
    assert!(EventRsvpContract::from_storage(ids, events, Vec::new(), conf).is_none());
}
