use coap_server::app::codes::ResponseType;
use coap_server::app::observe_handler::{
    observe_flag, observe_value_to_set, plan_registration, InvalidObserve, ObserveHandler, ObserveOption,
    RegistrationKey, RegistrationPlan, RegistrationRequest,
};
use coap_server::app::observers::{NotificationState, Observers};
use coap_server::app::resource_handler::notification_observe_value;
use coap_server::app::u24::u24;

fn request(observe: Option<Vec<u8>>, response: Option<Option<Vec<u8>>>, source: Option<i32>) -> RegistrationRequest<i32> {
    RegistrationRequest {
        observe_option: observe,
        path: "/obs/a".to_string(),
        response_observe_option: response,
        source,
        token: vec![1, 2],
    }
}

#[test]
fn observe_flag_values() {
    assert_eq!(observe_flag(None), None);
    assert_eq!(observe_flag(Some(&vec![])), Some(Ok(ObserveOption::Register)));
    assert_eq!(observe_flag(Some(&vec![1])), Some(Ok(ObserveOption::Deregister)));
    assert_eq!(observe_flag(Some(&vec![2])), Some(Err(InvalidObserve)));
    assert_eq!(observe_flag(Some(&vec![0, 0, 0, 0, 1])), Some(Err(InvalidObserve)));
}

#[test]
fn plan_without_observe_changes_nothing() {
    assert!(matches!(plan_registration(request(None, None, None)), Ok(RegistrationPlan::NoChange)));
}

#[test]
fn plan_errors_in_order() {
    match plan_registration(request(Some(vec![5]), None, None)) {
        Err(e) => {
            assert_eq!(e.code, Some(ResponseType::BadRequest));
            assert_eq!(e.message, "CoAP error: invalid observe option number");
        }
        _ => panic!("expected a bad request"),
    }
    match plan_registration(request(Some(vec![]), None, Some(1))) {
        Err(e) => {
            assert_eq!(e.code, Some(ResponseType::InternalServerError));
            assert_eq!(e.message, "No response prepared");
        }
        _ => panic!("expected an internal error"),
    }
    match plan_registration(request(Some(vec![]), Some(Some(vec![1, 2, 3, 4, 5])), Some(1))) {
        Err(e) => assert_eq!(e.message, "Invalid Observe option in prepared response"),
        _ => panic!("expected an internal error"),
    }
    match plan_registration(request(Some(vec![]), Some(None), None)) {
        Err(e) => assert_eq!(e.message, "Missing source!"),
        _ => panic!("expected an internal error"),
    }
}

#[test]
fn plan_register_and_deregister() {
    match plan_registration(request(Some(vec![]), Some(Some(vec![7])), Some(9))) {
        Ok(RegistrationPlan::Register { path, response_has_observe, .. }) => {
            assert_eq!(path, "/obs/a");
            assert!(response_has_observe);
        }
        _ => panic!("expected a registration"),
    }
    match plan_registration(request(Some(vec![1]), Some(None), Some(9))) {
        Ok(RegistrationPlan::Deregister { path, .. }) => assert_eq!(path, "/obs/a"),
        _ => panic!("expected a deregistration"),
    }
}

#[test]
fn observe_value_follows_the_current_state() {
    let n = u24::from(42u8);
    assert_eq!(observe_value_to_set(false, NotificationState::InitialSequence(n)), Some(42));
    assert_eq!(observe_value_to_set(false, NotificationState::ResourceChanged(n)), Some(42));
    assert_eq!(observe_value_to_set(true, NotificationState::ResourceChanged(n)), None);
}

#[test]
fn register_then_deregister_returns_the_handle() {
    let mut h: ObserveHandler<i32, &str, u32> = ObserveHandler::new("/obs".to_string());
    let key = RegistrationKey::new(1, vec![9]);
    assert_eq!(h.register("/obs/a".to_string(), key.clone(), 10, Some("notifier")), None);
    assert!(h.contains_path(&"/obs/a".to_string()));
    assert_eq!(h.notifier(&"/obs/a".to_string()), Some(&"notifier"));
    // Registering again under the same key replaces the registration.
    assert_eq!(h.register("/obs/a".to_string(), key.clone(), 11, None), Some(10));
    assert_eq!(h.deregister(&"/obs/a".to_string(), &key), Some(11));
    assert_eq!(h.deregister(&"/obs/a".to_string(), &key), None);
    // The path stays observed until its activity ends.
    assert!(h.contains_path(&"/obs/a".to_string()));
}

#[test]
fn end_of_activity_ends_every_registration_of_the_path() {
    let mut h: ObserveHandler<i32, &str, u32> = ObserveHandler::new("/obs".to_string());
    h.register("/obs/a".to_string(), RegistrationKey::new(1, vec![1]), 1, Some("na"));
    h.register("/obs/a".to_string(), RegistrationKey::new(2, vec![1]), 2, None);
    h.register("/obs/b".to_string(), RegistrationKey::new(1, vec![1]), 3, Some("nb"));
    let mut ended = h.end_of_activity(&"/obs/a".to_string()).unwrap();
    ended.sort();
    assert_eq!(ended, vec![1, 2]);
    assert!(!h.contains_path(&"/obs/a".to_string()));
    assert!(h.contains_path(&"/obs/b".to_string()));
    assert_eq!(h.end_of_activity(&"/obs/a".to_string()), None);
    assert_eq!(h.deregister(&"/obs/b".to_string(), &RegistrationKey::new(1, vec![1])), Some(3));
}

#[test]
fn relative_path_key_strips_the_prefix() {
    let h: ObserveHandler<i32, (), ()> = ObserveHandler::new("/obs".to_string());
    assert_eq!(h.relative_path_key("/obs/a/b"), vec!["a".to_string(), "b".to_string()]);
    assert_eq!(h.relative_path_key("/obs"), Vec::<String>::new());
    let o = h.new_observers("/obs/x");
    assert_eq!(o.relative_path(), "x");
}

#[test]
fn notify_change_advances_and_wraps() {
    let mut o = Observers::new(vec!["a".to_string(), "b".to_string()], u24::max_value());
    assert_eq!(o.relative_path(), "a/b");
    assert!(matches!(o.initial_state(), NotificationState::InitialSequence(n) if n == u24::max_value()));
    let s = o.notify_change();
    assert!(matches!(s, NotificationState::ResourceChanged(n) if n == u24::min_value()));
    let s2 = o.notify_change();
    assert_eq!(s2.change_num().value(), 1);
}

#[test]
fn observe_values_round_trip() {
    let one = notification_observe_value(None, u24::from(1u8)).unwrap();
    assert_eq!(observe_flag(Some(&one)), Some(Ok(ObserveOption::Deregister)));
    let zero = notification_observe_value(None, u24::from(0u8)).unwrap();
    assert_eq!(observe_flag(Some(&zero)), Some(Ok(ObserveOption::Register)));
    let big = notification_observe_value(None, u24::max_value()).unwrap();
    assert_eq!(big, vec![0xff, 0xff, 0xff]);
}

#[test]
fn sequence_after_several_changes() {
    let mut o = Observers::new(vec![], u24::try_from(0xfffffeu32).unwrap());
    for _ in 0..3 {
        o.notify_change();
    }
    assert!(matches!(o.notify_change(), NotificationState::ResourceChanged(n) if n.value() == 2));
}

#[test]
fn second_registration_keeps_the_first_notifier() {
    let mut h: ObserveHandler<i32, &str, u32> = ObserveHandler::new("/obs".to_string());
    h.register("/obs/a".to_string(), RegistrationKey::new(1, vec![1]), 1, Some("first"));
    h.register("/obs/a".to_string(), RegistrationKey::new(2, vec![1]), 2, Some("later"));
    assert_eq!(h.notifier(&"/obs/a".to_string()), Some(&"first"));
    h.end_of_activity(&"/obs/a".to_string());
    h.register("/obs/a".to_string(), RegistrationKey::new(3, vec![1]), 3, Some("again"));
    assert_eq!(h.notifier(&"/obs/a".to_string()), Some(&"again"));
}
