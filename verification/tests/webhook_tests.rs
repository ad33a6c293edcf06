use heartbeats::webhook::{colour_for_level, should_deliver, status_is_success, WebhookColour, WebhookLevel};

#[test]
fn colour_codes_match_the_palette() {
    assert_eq!(WebhookColour::Green.code(), 0x42_f5_98);
    assert_eq!(WebhookColour::Orange.code(), 0xde_95_3c);
    assert_eq!(WebhookColour::Blue.code(), 0x64_95_ed);
}

#[test]
fn each_event_class_has_its_colour() {
    assert_eq!(colour_for_level(WebhookLevel::All), Some(WebhookColour::Blue));
    assert_eq!(colour_for_level(WebhookLevel::NewDevices), Some(WebhookColour::Green));
    assert_eq!(colour_for_level(WebhookLevel::LongAbsences), Some(WebhookColour::Orange));
    assert_eq!(colour_for_level(WebhookLevel::Off), None);
}

#[test]
fn delivery_respects_the_configured_threshold() {
    // a hook listening to everything hears everything but silence
    assert!(should_deliver(WebhookLevel::All, WebhookLevel::All));
    assert!(should_deliver(WebhookLevel::All, WebhookLevel::LongAbsences));
    // a hook listening to rare events skips the chatter
    assert!(!should_deliver(WebhookLevel::LongAbsences, WebhookLevel::All));
    assert!(!should_deliver(WebhookLevel::LongAbsences, WebhookLevel::NewDevices));
    assert!(should_deliver(WebhookLevel::LongAbsences, WebhookLevel::LongAbsences));
    // an event of level Off outranks every configuration, and a
    // configuration of Off is satisfied only by it; the caller never
    // sends one, as it gets no colour
    assert!(should_deliver(WebhookLevel::Off, WebhookLevel::Off));
    assert!(!should_deliver(WebhookLevel::Off, WebhookLevel::LongAbsences));
}

#[test]
fn success_is_the_2xx_range() {
    assert!(!status_is_success(199));
    assert!(status_is_success(200));
    assert!(status_is_success(204));
    assert!(status_is_success(299));
    assert!(!status_is_success(300));
    assert!(!status_is_success(500));
}
