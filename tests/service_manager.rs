use lum::service_manager::{ServiceInfo, ServiceManager, StopDecision, DEFAULT_TIMEOUT_SECS};
use lum::status::{OverallStatus, Priority, StartupError, Status};

fn info(id: &str, name: &str, priority: Priority) -> ServiceInfo {
    ServiceInfo { id: id.to_string(), name: name.to_string(), priority }
}

fn manager(specs: &[(&str, &str, Priority)]) -> ServiceManager<u32, u32> {
    let mut builder = ServiceManager::<u32, u32>::builder();
    for (k, (id, name, priority)) in specs.iter().enumerate() {
        builder = builder.with_service(info(id, name, *priority), k as u32);
    }
    builder.build()
}

fn start(m: &mut ServiceManager<u32, u32>, id: &str) {
    let id = id.to_string();
    assert!(m.begin_start(&id).is_ok());
    assert!(m.finish_start(&id, Ok(())).is_ok());
}

fn status_text(m: &ServiceManager<u32, u32>, id: &str) -> String {
    m.status_of(&id.to_string()).unwrap().to_text()
}

#[test]
fn duplicate_id_keeps_first_registration() {
    let m = ServiceManager::<u32, u32>::builder()
        .with_service(info("db", "First", Priority::Essential), 1)
        .with_service(info("db", "Second", Priority::Optional), 2)
        .build::<u32>();
    assert_eq!(m.service_count(), 1);
    assert_eq!(m.service(0).info.name, "First");
    assert_eq!(m.service(0).handle, 1);
    assert!(m.manages_service(&"db".to_string()));
    assert!(!m.manages_service(&"cache".to_string()));
}

#[test]
fn services_keep_registration_order() {
    let m = manager(&[("a", "A", Priority::Essential), ("b", "B", Priority::Optional), ("c", "C", Priority::Optional)]);
    assert_eq!(m.service_count(), 3);
    assert_eq!(m.service(0).info.id, "a");
    assert_eq!(m.service(1).info.id, "b");
    assert_eq!(m.service(2).info.id, "c");
    assert!(matches!(m.status(1), Status::Stopped));
}

#[test]
fn start_unregistered_is_not_managed() {
    let mut m = manager(&[("a", "A", Priority::Essential)]);
    let r = m.begin_start(&"ghost".to_string());
    assert!(matches!(r, Err(StartupError::ServiceNotManaged(ref id)) if id == "ghost"));
    assert!(matches!(m.status(0), Status::Stopped));
    assert!(!m.has_background_task(&"ghost".to_string()));
}

#[test]
fn start_when_not_stopped_is_refused() {
    let mut m = manager(&[("a", "A", Priority::Essential)]);
    let id = "a".to_string();
    assert!(m.begin_start(&id).is_ok());
    assert!(matches!(m.status(0), Status::Starting));
    let r = m.begin_start(&id);
    assert!(matches!(r, Err(StartupError::ServiceNotStopped(ref s)) if s == "a"));
    assert!(matches!(m.status(0), Status::Starting));
    assert!(m.finish_start(&id, Ok(())).is_ok());
    let r = m.begin_start(&id);
    assert!(matches!(r, Err(StartupError::ServiceNotStopped(_))));
    assert!(matches!(m.status(0), Status::Started));
}

#[test]
fn start_timeout_fails_to_start() {
    let mut m = manager(&[("a", "A", Priority::Essential)]);
    let id = "a".to_string();
    assert!(m.begin_start(&id).is_ok());
    let r = m.finish_start(&id, Err("deadline has elapsed".to_string()));
    assert!(matches!(r, Err(StartupError::FailedToStartService(ref s)) if s == "a"));
    assert!(matches!(m.status(0), Status::FailedToStart(ref c) if c == "deadline has elapsed"));
    assert_eq!(status_text(&m, "a"), "Failed to start: deadline has elapsed");
}

#[test]
fn background_task_end_marks_runtime_error() {
    let mut m = manager(&[("a", "A", Priority::Essential)]);
    let id = "a".to_string();
    start(&mut m, "a");
    m.track_task(&id, 42);
    assert!(matches!(m.status(0), Status::Started));
    assert!(m.has_background_task(&id));
    let released = m.task_ended(&id, Ok(()));
    assert_eq!(released, Some(42));
    assert_eq!(status_text(&m, "a"), "Runtime error: Background task ended unexpectedly!");
    assert!(!m.has_background_task(&id));
    let r = m.begin_start(&id);
    assert!(matches!(r, Err(StartupError::ServiceNotStopped(_))));
}

#[test]
fn background_task_error_is_recorded() {
    let mut m = manager(&[("a", "A", Priority::Optional)]);
    let id = "a".to_string();
    start(&mut m, "a");
    m.track_task(&id, 5);
    assert_eq!(m.task_ended(&id, Err("disk full".to_string())), Some(5));
    assert_eq!(status_text(&m, "a"), "Runtime error: Background task ended with error: disk full");
}

#[test]
fn kept_task_handle_blocks_restart() {
    let mut m = ServiceManager::<u32, u32>::builder()
        .with_service(info("a", "A", Priority::Essential), 0)
        .release_finished_tasks(false)
        .build::<u32>();
    let id = "a".to_string();
    start(&mut m, "a");
    m.track_task(&id, 9);
    assert_eq!(m.task_ended(&id, Ok(())), None);
    assert!(m.has_background_task(&id));
    let r = m.begin_start(&id);
    assert!(matches!(r, Err(StartupError::BackgroundTaskAlreadyRunning(ref s)) if s == "a"));
}

#[test]
fn tracked_task_is_checked_before_status() {
    let mut m = manager(&[("a", "A", Priority::Essential)]);
    let id = "a".to_string();
    start(&mut m, "a");
    m.track_task(&id, 1);
    m.track_task(&id, 2);
    let r = m.begin_start(&id);
    assert!(matches!(r, Err(StartupError::BackgroundTaskAlreadyRunning(_))));
    assert_eq!(m.task_ended(&id, Ok(())), Some(2));
    assert!(!m.has_background_task(&id));
}

#[test]
fn stop_when_not_started_changes_nothing() {
    let mut m = manager(&[("a", "A", Priority::Essential)]);
    let id = "a".to_string();
    assert_eq!(m.begin_stop(&id), StopDecision::NotStarted);
    assert!(matches!(m.status(0), Status::Stopped));
    assert_eq!(m.begin_stop(&"ghost".to_string()), StopDecision::NotManaged);
    assert!(m.begin_start(&id).is_ok());
    assert!(m.finish_start(&id, Err("boom".to_string())).is_err());
    assert_eq!(m.begin_stop(&id), StopDecision::NotStarted);
    assert_eq!(status_text(&m, "a"), "Failed to start: boom");
}

#[test]
fn stop_cycle() {
    let mut m = manager(&[("a", "A", Priority::Essential)]);
    let id = "a".to_string();
    start(&mut m, "a");
    assert_eq!(m.begin_stop(&id), StopDecision::Proceed);
    assert!(matches!(m.status(0), Status::Stopping));
    assert_eq!(m.begin_stop(&id), StopDecision::NotStarted);
    m.finish_stop(&id, Ok(()));
    assert!(matches!(m.status(0), Status::Stopped));
    start(&mut m, "a");
    assert_eq!(m.begin_stop(&id), StopDecision::Proceed);
    m.finish_stop(&id, Err("deadline has elapsed".to_string()));
    assert_eq!(status_text(&m, "a"), "Failed to stop: deadline has elapsed");
}

#[test]
fn overall_status_requires_every_service_started() {
    let mut m = manager(&[("a", "A", Priority::Essential), ("b", "B", Priority::Optional)]);
    assert_eq!(m.overall_status(), OverallStatus::Unhealthy);
    start(&mut m, "a");
    assert_eq!(m.overall_status(), OverallStatus::Unhealthy);
    start(&mut m, "b");
    assert_eq!(m.overall_status(), OverallStatus::Healthy);
    let b = "b".to_string();
    assert_eq!(m.begin_stop(&b), StopDecision::Proceed);
    m.finish_stop(&b, Ok(()));
    assert_eq!(m.overall_status(), OverallStatus::Unhealthy);
    start(&mut m, "b");
    m.track_task(&b, 3);
    m.task_ended(&b, Ok(()));
    assert_eq!(m.overall_status(), OverallStatus::Unhealthy);
}

#[test]
fn overall_status_of_empty_registry_is_healthy() {
    let m = manager(&[]);
    assert_eq!(m.overall_status(), OverallStatus::Healthy);
    assert_eq!(m.status_tree(), "");
}

#[test]
fn status_tree_groups_failed_first() {
    let mut m = manager(&[("a", "Alpha", Priority::Essential), ("b", "Beta", Priority::Optional)]);
    start(&mut m, "a");
    let b = "b".to_string();
    assert!(m.begin_start(&b).is_ok());
    assert!(m.finish_start(&b, Err("boom".to_string())).is_err());
    let tree = m.status_tree();
    assert_eq!(
        tree,
        "- Failed optional services:\n - Beta: Failed to start: boom\n- Essential services:\n - Alpha: Started\n"
    );
    let failed = tree.find("Failed optional services").unwrap();
    let essential = tree.find("- Essential services").unwrap();
    assert!(failed < essential);
}

#[test]
fn status_tree_all_groups_in_order() {
    let mut m = manager(&[
        ("o", "Other", Priority::Essential),
        ("fe", "FailedEss", Priority::Essential),
        ("e", "Ess", Priority::Essential),
        ("op", "Opt", Priority::Optional),
        ("fo", "FailedOpt", Priority::Optional),
    ]);
    assert!(m.begin_start(&"o".to_string()).is_ok());
    start(&mut m, "fe");
    let fe = "fe".to_string();
    assert_eq!(m.begin_stop(&fe), StopDecision::Proceed);
    m.finish_stop(&fe, Err("stuck".to_string()));
    start(&mut m, "fo");
    m.track_task(&"fo".to_string(), 1);
    m.task_ended(&"fo".to_string(), Err("oops".to_string()));
    let expected = "- Failed essential services:\n - FailedEss: Failed to stop: stuck\n\
- Failed optional services:\n - FailedOpt: Runtime error: Background task ended with error: oops\n\
- Essential services:\n - Ess: Stopped\n\
- Optional services:\n - Opt: Stopped\n\
- Other services:\n - Other: Starting\n";
    assert_eq!(m.status_tree(), expected);
}

#[test]
fn timeout_is_configurable() {
    let m = manager(&[]);
    assert_eq!(m.timeout_secs(), DEFAULT_TIMEOUT_SECS);
    assert_eq!(DEFAULT_TIMEOUT_SECS, 10);
    let m2 = ServiceManager::<u32, u32>::builder().with_timeout(3).build::<u32>();
    assert_eq!(m2.timeout_secs(), 3);
}

#[test]
fn status_texts() {
    assert_eq!(Status::Stopped.to_text(), "Stopped");
    assert_eq!(Status::Starting.to_text(), "Starting");
    assert_eq!(Status::Started.to_text(), "Started");
    assert_eq!(Status::Stopping.to_text(), "Stopping");
    assert_eq!(Status::FailedToStop("x".to_string()).to_text(), "Failed to stop: x");
    assert!(Status::RuntimeError(String::new()).is_failed());
    assert!(!Status::Starting.is_settled());
}

#[test]
fn registry_description() {
    assert_eq!(manager(&[]).to_text(), "Services: None");
    assert_eq!(manager(&[("a", "Alpha", Priority::Essential)]).to_text(), "Services: Alpha (a)");
    let m = manager(&[("a", "Alpha", Priority::Essential), ("b", "Beta", Priority::Optional)]);
    assert_eq!(m.to_text(), "Services: Alpha (a), Beta (b)");
}
