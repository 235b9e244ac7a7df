use snotes::input::{
    factory_barrel_action, BarrelAction, InputEventType, InputSource, PenButton,
    RejectedTouches, StylusContact,
};

#[test]
fn barrel_defaults() {
    assert_eq!(factory_barrel_action(PenButton::Primary), BarrelAction::Eraser);
    assert_eq!(factory_barrel_action(PenButton::Secondary), BarrelAction::RightClick);
    assert_eq!(factory_barrel_action(PenButton::Tertiary), BarrelAction::NoAction);
}

#[test]
fn stylus_contact_follows_events() {
    let mut c = StylusContact { in_proximity: false, in_contact: false };
    c.apply(InputEventType::ProximityIn);
    assert_eq!(c, StylusContact { in_proximity: true, in_contact: false });
    c.apply(InputEventType::StylusDown);
    assert!(c.in_contact);
    c.apply(InputEventType::StylusMotion);
    assert!(c.in_contact && c.in_proximity);
    c.apply(InputEventType::StylusUp);
    assert!(!c.in_contact);
    c.apply(InputEventType::StylusDown);
    c.apply(InputEventType::ProximityOut);
    assert_eq!(c, StylusContact { in_proximity: false, in_contact: false });
}

#[test]
fn touches_in_zones_stay_rejected_until_lifted() {
    let mut r = RejectedTouches::new();
    // pen input and disabled rejection are never rejected
    assert!(!r.should_reject(true, InputSource::Stylus, true, "pen", InputEventType::StylusDown));
    assert!(!r.should_reject(false, InputSource::Touch, true, "t1", InputEventType::TouchDown));
    // a touch starting in a zone is rejected, and stays so outside it
    assert!(r.should_reject(true, InputSource::Touch, true, "t1", InputEventType::TouchDown));
    assert!(r.contains("t1"));
    assert!(r.should_reject(true, InputSource::Touch, false, "t1", InputEventType::TouchMotion));
    assert!(r.should_reject(true, InputSource::Touch, true, "t1", InputEventType::TouchMotion));
    // another touch outside any zone goes through
    assert!(!r.should_reject(true, InputSource::Touch, false, "t2", InputEventType::TouchDown));
    // lifting the rejected touch is rejected and forgets it
    assert!(r.should_reject(true, InputSource::Touch, false, "t1", InputEventType::TouchUp));
    assert!(!r.contains("t1"));
    assert!(!r.should_reject(true, InputSource::Touch, false, "t1", InputEventType::TouchDown));
}

#[test]
fn lift_inside_a_zone_keeps_touch_rejected() {
    let mut r = RejectedTouches::new();
    assert!(r.should_reject(true, InputSource::Touch, true, "t3", InputEventType::TouchDown));
    // a lift inside a zone is rejected but does not end the rejection
    assert!(r.should_reject(true, InputSource::Touch, true, "t3", InputEventType::TouchUp));
    assert!(r.contains("t3"));
    assert!(r.should_reject(true, InputSource::Touch, false, "t3", InputEventType::TouchMotion));
    // a lift outside the zones ends it
    assert!(r.should_reject(true, InputSource::Touch, false, "t3", InputEventType::TouchUp));
    assert!(!r.should_reject(true, InputSource::Touch, false, "t3", InputEventType::TouchMotion));
}
