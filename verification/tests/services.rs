use zonemail::api::{controlled_service, list_services, service_answer, wanted_mode, NewMode};
use zonemail::services::{BootMode, Service, ServiceManager, Status};

fn spawned(_: Service, addr: &str) -> Result<String, String> {
    Ok(addr.to_string())
}

fn refused(_: Service, _: &str) -> Result<String, String> {
    Err("bind failed".to_string())
}

fn manager() -> ServiceManager<String> {
    ServiceManager::for_test()
}

#[test]
fn boot_mode_services_map_correctly() {
    let full = BootMode::Full.services();
    assert_eq!(full.len(), 2);
    assert!(full.contains(&Service::Smtp) && full.contains(&Service::Dns));
    assert_eq!(BootMode::Smtp.services(), vec![Service::Smtp]);
    assert_eq!(BootMode::Dns.services(), vec![Service::Dns]);
    assert!(BootMode::ApiOnly.services().is_empty());
    assert_eq!(BootMode::default(), BootMode::Full);
}

#[test]
fn service_parse_is_case_insensitive_and_rejects_unknown() {
    assert_eq!(Service::parse("dns"), Some(Service::Dns));
    assert_eq!(Service::parse(" SMTP "), Some(Service::Smtp));
    assert_eq!(Service::parse("api"), None);
    assert_eq!(Service::parse("bogus"), None);
}

#[test]
fn start_is_idempotent_and_reflects_status() {
    let mut mgr = manager();
    assert_eq!(mgr.status_of(Service::Smtp), Status::Idle);

    let first = mgr.start(Service::Smtp, &spawned).unwrap();
    assert!(first.changed);
    assert_eq!(first.status, Status::Running);
    assert_eq!(mgr.status_of(Service::Smtp), Status::Running);

    let second = mgr.start(Service::Smtp, &spawned).unwrap();
    assert!(!second.changed);
    assert_eq!(mgr.status_of(Service::Smtp), Status::Running);
}

#[test]
fn stop_is_idempotent() {
    let mut mgr = manager();
    mgr.start(Service::Dns, &spawned).unwrap();

    let first = mgr.stop(Service::Dns);
    assert!(first.result.changed);
    assert_eq!(first.result.status, Status::Idle);
    assert_eq!(first.handle.as_deref(), Some("127.0.0.1:0"));
    assert_eq!(mgr.status_of(Service::Dns), Status::Idle);

    let second = mgr.stop(Service::Dns);
    assert!(!second.result.changed);
    assert!(second.handle.is_none());
}

#[test]
fn apply_mode_starts_wanted_and_stops_rest() {
    let mut mgr = manager();
    mgr.boot(BootMode::Full, &spawned);
    assert_eq!(mgr.status_of(Service::Smtp), Status::Running);
    assert_eq!(mgr.status_of(Service::Dns), Status::Running);

    let applied = mgr.apply_mode(BootMode::Dns, &spawned);
    assert_eq!(mgr.status_of(Service::Smtp), Status::Idle);
    assert_eq!(mgr.status_of(Service::Dns), Status::Running);
    assert_eq!(applied.reports.len(), 2);
    assert_eq!(applied.handles.len(), 1);
}

#[test]
fn list_reports_both_services() {
    let mut mgr = manager();
    mgr.start(Service::Smtp, &spawned).unwrap();
    let reports = mgr.list();
    assert_eq!(reports.len(), 2);
    assert!(reports.iter().any(|r| r.service == Service::Smtp && r.status == Status::Running));
    assert!(reports.iter().any(|r| r.service == Service::Dns && r.status == Status::Idle));
}

#[test]
fn services_list_reports_both_listeners_idle_by_default() {
    let body = list_services(&manager());
    assert!(body.ok, "list ok");
    assert_eq!(body.data.len(), 2, "one report per controllable service");
    assert!(body.data.iter().all(|r| r.status == Status::Idle), "both idle at boot");
    let has_dns = body.data.iter().any(|r| r.service == Service::Dns);
    let has_smtp = body.data.iter().any(|r| r.service == Service::Smtp);
    assert!(has_dns && has_smtp);
}

#[test]
fn service_start_stop_is_idempotent_through_router() {
    let mut mgr = manager();
    let service = controlled_service("smtp").unwrap();

    let r = service_answer(mgr.start(service, &spawned)).unwrap();
    assert!(r.data.changed, "first start");
    assert_eq!(r.data.status, Status::Running);
    assert_eq!(r.data.service, Service::Smtp);

    let r = service_answer(mgr.start(service, &spawned)).unwrap();
    assert!(!r.data.changed, "idempotent start");

    let r = service_answer(Ok(mgr.stop(service).result)).unwrap();
    assert!(r.data.changed, "first stop");
    assert_eq!(r.data.status, Status::Idle);

    let r = service_answer(Ok(mgr.stop(service).result)).unwrap();
    assert!(!r.data.changed, "idempotent stop");
}

#[test]
fn service_mode_switches_all_listeners() {
    let mut mgr = manager();
    let mode = wanted_mode(Some(NewMode { mode: "dns".to_string() })).unwrap();
    let reports = mgr.apply_mode(mode, &spawned).reports;
    let dns = reports.iter().find(|r| r.service == Service::Dns).unwrap();
    let smtp = reports.iter().find(|r| r.service == Service::Smtp).unwrap();
    assert_eq!(dns.status, Status::Running, "dns up for dns-mode");
    assert_eq!(smtp.status, Status::Idle, "smtp down for dns-mode");

    let mode = wanted_mode(Some(NewMode { mode: "full".to_string() })).unwrap();
    let reports = mgr.apply_mode(mode, &spawned).reports;
    assert!(
        !reports.is_empty() && reports.iter().all(|r| r.status == Status::Running),
        "both running after full mode"
    );

    let failure = wanted_mode(Some(NewMode { mode: "banana".to_string() })).unwrap_err();
    assert_eq!(failure.status, 400, "unknown mode");
    assert!(wanted_mode(Some(NewMode { mode: "api".to_string() })).is_err());
    assert_eq!(BootMode::parse("api"), None);
    assert_eq!(BootMode::parse("api-only"), Some(BootMode::ApiOnly));
}

#[test]
fn service_control_rejects_non_controllable_names() {
    for name in ["api", "outbound"] {
        let failure = controlled_service(name).unwrap_err();
        assert_eq!(failure.status, 400, "{name} is not controllable");
        assert_eq!(
            failure.problem.detail,
            Some(format!("service '{name}' is not controllable"))
        );
    }
}

#[test]
fn failed_start_leaves_the_service_idle() {
    let mut mgr = manager();
    let outcome = mgr.start(Service::Dns, &refused);
    assert_eq!(outcome, Err("bind failed".to_string()));
    assert_eq!(mgr.status_of(Service::Dns), Status::Idle);
    let failure = service_answer(outcome).unwrap_err();
    assert_eq!(failure.status, 500);
    assert_eq!(failure.problem.detail.as_deref(), Some("bind failed"));

    let applied = mgr.apply_mode(BootMode::Full, &refused);
    assert!(applied.reports.iter().all(|r| r.status == Status::Idle));
    mgr.boot(BootMode::Smtp, &spawned);
    assert_eq!(mgr.status_of(Service::Smtp), Status::Running);
    assert_eq!(mgr.status_of(Service::Dns), Status::Idle);
}

#[test]
fn stopping_everything_hands_over_every_task() {
    let mut mgr: ServiceManager<String> =
        ServiceManager::new("127.0.0.1:53".to_string(), "127.0.0.1:25".to_string());
    mgr.boot(BootMode::Full, &spawned);
    assert_eq!(mgr.stop_all(), vec!["127.0.0.1:53".to_string(), "127.0.0.1:25".to_string()]);
    assert_eq!(mgr.status_of(Service::Smtp), Status::Idle);
    assert!(mgr.stop_all().is_empty());
}

#[test]
fn names_of_services_and_modes() {
    assert_eq!(Service::all(), [Service::Dns, Service::Smtp]);
    assert_eq!(Service::Dns.as_str(), "dns");
    assert_eq!(Service::parse(Service::Smtp.as_str()), Some(Service::Smtp));
    assert_eq!(BootMode::parse("api-only"), Some(BootMode::ApiOnly));
    assert_eq!(BootMode::parse("off"), Some(BootMode::Off));
    assert!(BootMode::Off.services().is_empty());
    assert_eq!(BootMode::parse("banana"), None);
    let failure = wanted_mode(None).unwrap_err();
    assert_eq!((failure.status, failure.problem.status), (400, 422));
}
