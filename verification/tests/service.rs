use api::service::{check, drain, run, DrainingReason, Service, ServiceStatus};
use api::shutdown::ShutdownAction;
use api::auth::is_authorized;

#[test]
fn running_service_accepts_businesses() {
    let service = Service::new();
    assert_eq!(service.status(), ServiceStatus::Running);
    assert!(check(&service).is_ok());
    assert_eq!(ServiceStatus::Running.response(), (200, String::new()));
}

#[test]
fn draining_service_refuses_with_503() {
    let mut service = Service::new();
    drain(&mut service, DrainingReason::Updating);
    assert_eq!(service.status(), ServiceStatus::Draining(DrainingReason::Updating));
    assert_eq!(check(&service), Err((503, String::from("Server updating…"))));
    assert_eq!(DrainingReason::Updating.describe(), "server update");
    drain(&mut service, DrainingReason::Updating);
    assert_eq!(service.status(), ServiceStatus::Draining(DrainingReason::Updating));
}

#[test]
fn stop_requested_once_when_only_the_updater_remains() {
    let mut service = Service::new();
    let updater = run(&mut service);
    let other = run(&mut service);
    let third = run(&mut service);
    assert_eq!(service.running(), 3);
    drain(&mut service, DrainingReason::Updating);
    assert!(!third.release(&mut service));
    assert!(other.release(&mut service));
    assert_eq!(service.running(), 1);
    let late = run(&mut service);
    assert!(!late.release(&mut service));
    assert!(!updater.release(&mut service));
    assert_eq!(service.running(), 0);
}

#[test]
fn stop_is_requested_at_most_once_over_many_events() {
    let mut service = Service::new();
    let mut guards = Vec::new();
    for _ in 0..4 {
        guards.push(run(&mut service));
    }
    drain(&mut service, DrainingReason::Updating);
    let mut stops = 0;
    for round in 0..3 {
        if round == 1 {
            guards.push(run(&mut service));
            guards.push(run(&mut service));
        }
        while guards.len() > 1 {
            if guards.pop().unwrap().release(&mut service) {
                stops += 1;
            }
        }
        guards.push(run(&mut service));
    }
    while let Some(g) = guards.pop() {
        if g.release(&mut service) {
            stops += 1;
        }
    }
    assert_eq!(stops, 1);
    assert_eq!(service.running(), 0);
}

#[test]
fn running_service_never_stops() {
    let mut service = Service::new();
    let a = run(&mut service);
    let b = run(&mut service);
    assert!(!a.release(&mut service));
    assert!(!b.release(&mut service));
    assert_eq!(service.status(), ServiceStatus::Running);
}

#[test]
fn update_action_points_at_extracted_binary() {
    match ShutdownAction::update_from("./update") {
        ShutdownAction::Update { binary_path } => assert_eq!(binary_path, "./update/api"),
        _ => panic!("expected an update"),
    }
}

#[test]
fn authorization_needs_the_exact_key() {
    assert!(is_authorized(Some("secret"), "secret"));
    assert!(!is_authorized(Some("secret "), "secret"));
    assert!(!is_authorized(Some(""), "secret"));
    assert!(!is_authorized(None, "secret"));
}
