use a2a_rs::json::JsonValue;
use a2a_rs::strmap::StrMap;
use a2a_rs::transport::health::{ComponentHealth, HealthChecker, HealthStatus, ReadinessCheckResponse};

#[test]
fn test_health_checker() {
    let mut checker = HealthChecker::new().with_version("1.0.0".to_string());
    checker.register_component("database".to_string(), HealthStatus::Healthy);
    checker.register_component("cache".to_string(), HealthStatus::Healthy);
    assert_eq!(checker.get_health_status(), HealthStatus::Healthy);
    checker.update_component("cache", HealthStatus::Degraded);
    assert_eq!(checker.get_health_status(), HealthStatus::Degraded);
    checker.update_component("database", HealthStatus::Unhealthy);
    assert_eq!(checker.get_health_status(), HealthStatus::Unhealthy);
}

#[test]
fn test_readiness_check() {
    let mut checker = HealthChecker::new();
    let critical = vec!["database".to_string()];
    assert!(!checker.is_ready(&critical));
    checker.register_component("database".to_string(), HealthStatus::Unhealthy);
    assert!(!checker.is_ready(&critical));
    checker.update_component("database", HealthStatus::Healthy);
    assert!(checker.is_ready(&critical));
}

#[test]
fn operational_statuses() {
    assert!(HealthStatus::Healthy.is_operational());
    assert!(HealthStatus::Degraded.is_operational());
    assert!(!HealthStatus::Unhealthy.is_operational());
}

#[test]
fn empty_checker_is_healthy_and_ready() {
    let checker = HealthChecker::new();
    assert_eq!(checker.get_health_status(), HealthStatus::Healthy);
    assert!(checker.is_ready(&[]));
    assert!(checker.version().is_none());
}

#[test]
fn updates_of_unknown_components_are_ignored() {
    let mut checker = HealthChecker::new();
    checker.update_component("ghost", HealthStatus::Unhealthy);
    assert_eq!(checker.get_health_status(), HealthStatus::Healthy);
    checker.register_component("q".to_string(), HealthStatus::Healthy);
    checker.update_component_with_message("q", HealthStatus::Degraded, "slow".to_string());
    checker.update_component_with_metrics("q", HealthStatus::Degraded, JsonValue::Null);
    assert_eq!(checker.get_health_status(), HealthStatus::Degraded);
}

#[test]
fn readiness_response_builders() {
    let mut deps = StrMap::new();
    deps.insert("db".to_string(), true);
    let r = ReadinessCheckResponse::new(false).with_message("Service is not ready".to_string()).with_dependencies(deps);
    assert!(!r.ready);
    assert_eq!(r.message.as_deref(), Some("Service is not ready"));
    assert_eq!(r.dependencies.unwrap().get("db"), Some(&true));
    let c = ComponentHealth::new("x".to_string(), HealthStatus::Healthy).with_message("ok".to_string());
    assert_eq!(c.message.as_deref(), Some("ok"));
}
