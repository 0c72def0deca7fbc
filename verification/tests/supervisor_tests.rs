use mantis_infra::supervisor::{
    actor_id_matches, status_reports_running, ActorHealthStatus, ActorState, HealthAction, HealthProbe,
    SupervisorActor,
};

fn supervisor(ids: &[&str]) -> SupervisorActor<u32> {
    let mut s: SupervisorActor<u32> = SupervisorActor::new();
    for (k, id) in ids.iter().enumerate() {
        s.register_actor(id.to_string(), k as u32);
    }
    s
}

#[test]
fn register_then_lookup() {
    let mut s = supervisor(&["market", "risk"]);
    assert_eq!(s.get_actor("market"), Some(&0));
    assert_eq!(s.get_actor("risk"), Some(&1));
    assert_eq!(s.get_actor("strategy"), None);
    let st = s.get_state("risk").unwrap();
    assert!(!st.is_running);
    assert_eq!(st.failure_count, 0);
    assert_eq!(st.health_status, ActorHealthStatus::Good);
    s.unregister_actor("market");
    assert_eq!(s.get_actor("market"), None);
    assert_eq!(s.actor_count(), 1);
    assert_eq!(s.actor_ids(), vec!["risk".to_string()]);
}

#[test]
fn reregistering_resets_state() {
    let mut s = supervisor(&["market"]);
    s.apply_health_probe("market", HealthProbe::TimedOut, 5);
    assert_eq!(s.get_state("market").unwrap().failure_count, 1);
    s.register_actor("market".to_string(), 9);
    assert_eq!(s.get_actor("market"), Some(&9));
    assert_eq!(s.get_state("market").unwrap().failure_count, 0);
    assert_eq!(s.actor_count(), 1);
}

#[test]
fn interval_and_running_flags() {
    let s: SupervisorActor<u32> = SupervisorActor::new();
    assert_eq!(s.health_check_interval(), 30);
    let mut s = s.with_health_check_interval(5);
    assert_eq!(s.health_check_interval(), 5);
    s.set_health_check_interval(7);
    assert_eq!(s.health_check_interval(), 7);
    s.set_supervisor_running(false);
    assert!(!s.get_health_report().supervisor_running);
}

#[test]
fn start_stop_and_restart_records() {
    let mut s = supervisor(&["execution"]);
    s.record_start("execution", true);
    assert!(s.get_state("execution").unwrap().is_running);
    s.record_stop("execution", false);
    assert!(s.get_state("execution").unwrap().is_running);
    s.record_stop("execution", true);
    assert!(!s.get_state("execution").unwrap().is_running);
    s.apply_health_probe("execution", HealthProbe::ErrorResponse, 1);
    assert!(s.record_restart("execution", true, true));
    let st = s.get_state("execution").unwrap();
    assert!(st.is_running);
    assert_eq!(st.failure_count, 0);
    assert_eq!(st.last_failure, None);
    assert_eq!(st.health_status, ActorHealthStatus::Degraded);
    assert!(s.record_restart("execution", true, false));
    assert_eq!(s.get_state("execution").unwrap().health_status, ActorHealthStatus::Good);
    assert!(!s.record_restart("nobody", true, true));
}

#[test]
fn probe_recovers_critical_actor_once_stopped() {
    let mut s = supervisor(&["strategy", "database"]);
    s.record_start("strategy", true);
    s.record_start("database", true);
    let a = s.apply_health_probe("strategy", HealthProbe::Status { running: false }, 100);
    assert_eq!(a, HealthAction::AttemptRecovery);
    let st = s.get_state("strategy").unwrap();
    assert!(!st.is_running);
    assert_eq!(st.failure_count, 1);
    assert_eq!(st.last_failure, Some(100));
    assert_eq!(st.health_status, ActorHealthStatus::Degraded);
    let b = s.apply_health_probe("database", HealthProbe::Status { running: false }, 100);
    assert_eq!(b, HealthAction::Continue);
    let c = s.apply_health_probe("strategy", HealthProbe::Status { running: true }, 200);
    assert_eq!(c, HealthAction::Continue);
    let st = s.get_state("strategy").unwrap();
    assert!(st.is_running);
    assert_eq!(st.failure_count, 0);
    assert_eq!(st.health_status, ActorHealthStatus::Good);
}

#[test]
fn failures_escalate_to_critical() {
    let mut s = supervisor(&["risk"]);
    s.apply_health_probe("risk", HealthProbe::ErrorResponse, 1);
    assert_eq!(s.get_state("risk").unwrap().health_status, ActorHealthStatus::Degraded);
    s.apply_health_probe("risk", HealthProbe::ReceiveFailed, 2);
    assert_eq!(s.get_state("risk").unwrap().health_status, ActorHealthStatus::Degraded);
    s.apply_health_probe("risk", HealthProbe::ErrorResponse, 3);
    let st = s.get_state("risk").unwrap();
    assert_eq!(st.failure_count, 3);
    assert_eq!(st.health_status, ActorHealthStatus::Critical);
    s.apply_health_probe("risk", HealthProbe::UnexpectedResponse, 4);
    assert_eq!(s.get_state("risk").unwrap().failure_count, 3);
    assert_eq!(s.apply_health_probe("ghost", HealthProbe::TimedOut, 5), HealthAction::Continue);
}

#[test]
fn timeout_is_critical_at_once() {
    let mut s = supervisor(&["market"]);
    s.apply_health_probe("market", HealthProbe::SendFailed, 9);
    let st = s.get_state("market").unwrap();
    assert_eq!(st.health_status, ActorHealthStatus::Critical);
    assert_eq!(st.failure_count, 1);
}

#[test]
fn health_report_counts() {
    let mut s = supervisor(&["market", "risk", "execution", "database"]);
    s.record_start("market", true);
    s.record_start("risk", true);
    s.apply_health_probe("execution", HealthProbe::TimedOut, 1);
    let r = s.get_health_report();
    assert_eq!(r.total_actors, 4);
    assert_eq!(r.running_actors, 2);
    assert_eq!(r.failing_actors, 1);
    assert_eq!(r.overall_health, ActorHealthStatus::Degraded);
    assert_eq!(r.actors[2].id, "execution");
    assert_eq!(r.actors[2].health, ActorHealthStatus::Critical);
    s.apply_health_probe("market", HealthProbe::TimedOut, 2);
    s.apply_health_probe("database", HealthProbe::TimedOut, 3);
    assert_eq!(s.get_health_report().overall_health, ActorHealthStatus::Critical);
    let empty: SupervisorActor<u32> = SupervisorActor::new();
    let e = empty.get_health_report();
    assert_eq!(e.total_actors, 0);
    assert_eq!(e.overall_health, ActorHealthStatus::Good);
}

#[test]
fn emergency_marks_and_matching() {
    let mut s = supervisor(&["market", "MarketDataActor", "risk"]);
    assert_eq!(
        s.matching_actor_ids("MarketDataActor"),
        vec!["market".to_string(), "MarketDataActor".to_string()]
    );
    assert_eq!(s.matching_actor_ids("risk"), vec!["risk".to_string()]);
    s.mark_emergency("risk", 77);
    let st = s.get_state("risk").unwrap();
    assert_eq!(st.failure_count, 1);
    assert_eq!(st.last_failure, Some(77));
    assert_eq!(st.health_status, ActorHealthStatus::Critical);
    assert!(actor_id_matches("execution", "ExecutionActor"));
    assert!(!actor_id_matches("execution", "RiskManagerActor"));
}

#[test]
fn status_text_running() {
    assert!(status_reports_running("Status { running: true, tasks: 2 }"));
    assert!(!status_reports_running("Status { running: false }"));
}

#[test]
fn actor_state_starts_clean() {
    let st = ActorState::new();
    assert!(!st.is_running);
    assert_eq!(st.failure_count, 0);
    assert_eq!(st.last_failure, None);
    assert_eq!(st.health_status, ActorHealthStatus::Good);
}

#[test]
fn probe_now_uses_the_clock() {
    let mut s = supervisor(&["risk"]);
    assert_eq!(s.apply_health_probe_now("ghost", HealthProbe::TimedOut), Some(HealthAction::Continue));
    assert_eq!(s.apply_health_probe_now("risk", HealthProbe::TimedOut), Some(HealthAction::Continue));
    let st = s.get_state("risk").unwrap();
    assert_eq!(st.health_status, ActorHealthStatus::Critical);
    assert!(st.last_failure.unwrap() > 1_600_000_000_000);
}

#[test]
fn emergency_restart_marks_running_only_when_started() {
    let mut s = supervisor(&["risk", "market"]);
    s.mark_emergency("risk", 10);
    s.finish_emergency_restart("risk", false);
    let st = s.get_state("risk").unwrap();
    assert!(!st.is_running);
    assert_eq!(st.failure_count, 1);
    assert_eq!(st.health_status, ActorHealthStatus::Critical);
    s.finish_emergency_restart("risk", true);
    let st = s.get_state("risk").unwrap();
    assert!(st.is_running);
    assert_eq!(st.failure_count, 1);
    assert_eq!(st.health_status, ActorHealthStatus::Critical);
    assert!(!s.get_state("market").unwrap().is_running);
    s.finish_emergency_restart("strategy", true);
    assert_eq!(s.actor_count(), 2);
}

