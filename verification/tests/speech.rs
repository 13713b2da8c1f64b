use std::sync::mpsc;
use tategoto::model::TranscriptionSettings;
use tategoto::speech::{
    callback_sender, decode_callback_id, encode_callback_id, register_callback,
    speech_config, trimmed_non_empty, unregister_callback, CallbackRegistry, StopLatch,
};

#[test]
fn callback_ignores_events_after_registration_is_removed() {
    let mut registry = CallbackRegistry::new();
    let (sender, receiver) = mpsc::channel::<&'static str>();
    let callback_id = register_callback(&mut registry, sender).unwrap();
    unregister_callback(&mut registry, callback_id);

    let user_data = encode_callback_id(callback_id);
    if let Some(sender) = callback_sender(&registry, decode_callback_id(user_data)) {
        sender.send("{\"type\":\"ready\"}").unwrap();
    }

    assert!(receiver.try_recv().is_err());
}

#[test]
fn registered_callback_receives_events() {
    let mut registry = CallbackRegistry::new();
    let (a, ra) = mpsc::channel::<u8>();
    let (b, rb) = mpsc::channel::<u8>();
    let ia = register_callback(&mut registry, a).unwrap();
    let ib = register_callback(&mut registry, b).unwrap();
    assert_eq!((ia, ib), (1, 2));
    callback_sender(&registry, decode_callback_id(encode_callback_id(ib))).unwrap().send(7).unwrap();
    assert_eq!(rb.try_recv().unwrap(), 7);
    assert!(ra.try_recv().is_err());
    assert_eq!(encode_callback_id(ib), 16);
}

#[test]
fn locale_is_trimmed_or_dropped() {
    assert_eq!(trimmed_non_empty(Some("  ja-JP \n")), Some("ja-JP".to_string()));
    assert_eq!(trimmed_non_empty(Some(" \u{3000} ")), None);
    assert_eq!(trimmed_non_empty(None), None);
    let config = speech_config(&TranscriptionSettings { locale_identifier: Some(" en-US".into()) });
    assert_eq!(config.locale_identifier, Some("en-US".to_string()));
}

#[test]
fn stop_is_requested_once() {
    let mut latch = StopLatch::new();
    assert!(latch.begin_stop());
    assert!(!latch.begin_stop());
}

#[test]
fn ids_are_distinct_across_many_registrations() {
    let mut registry = CallbackRegistry::new();
    let mut ids = Vec::new();
    for _ in 0..50 {
        let (sender, _receiver) = mpsc::channel::<u8>();
        ids.push(register_callback(&mut registry, sender).unwrap());
    }
    let expected: Vec<usize> = (1..=50).collect();
    assert_eq!(ids, expected);
    unregister_callback(&mut registry, 10);
    let (sender, _receiver) = mpsc::channel::<u8>();
    assert_eq!(register_callback(&mut registry, sender).unwrap(), 51);
}

#[test]
fn bridge_is_told_only_at_the_first_of_many_stops() {
    let mut latch = StopLatch::new();
    let answers: Vec<bool> = (0..5).map(|_| latch.begin_stop()).collect();
    assert_eq!(answers, vec![true, false, false, false, false]);
}
