use tunnel_guard::codec::TunnelConfig;
use tunnel_guard::guard::GuardEntry;
use tunnel_guard::guard::GuardState;
use tunnel_guard::guard::should_stop_guard_by_log;
use tunnel_guard::registry::ProcessHandle;
use tunnel_guard::registry::ProcessRegistry;
use tunnel_guard::registry::RegistryError;
use tunnel_guard::supervisor::RestartEvent;
use tunnel_guard::supervisor::Supervisor;
use tunnel_guard::supervisor::SupervisorError;

fn sample_config(id: i32) -> TunnelConfig {
    TunnelConfig {
        tunnel_id: id,
        tunnel_name: "web".to_string(),
        server_addr: "s.example.org".to_string(),
        server_port: 7000,
        local_ip: "127.0.0.1".to_string(),
        local_port: 8080,
        tunnel_type: "tcp".to_string(),
        remote_port: Some(25565),
        custom_domains: None,
        http_proxy: None,
        force_tls: false,
        kcp_optimization: false,
        user_token: "usertok".to_string(),
        node_token: "nodetok".to_string(),
    }
}

#[test]
fn registry_rejects_double_insert_and_accepts_after_removal() {
    let mut reg = ProcessRegistry::new();
    assert!(reg.try_insert(42, ProcessHandle { pid: 100 }).is_ok());
    assert_eq!(
        reg.try_insert(42, ProcessHandle { pid: 101 }).unwrap_err(),
        RegistryError::AlreadyRunning
    );
    let handle = reg.remove_and_terminate(42).unwrap();
    assert_eq!(handle.pid, 100);
    assert!(reg.try_insert(42, ProcessHandle { pid: 102 }).is_ok());
}

#[test]
fn registry_probe_and_sweep() {
    let mut reg = ProcessRegistry::new();
    reg.try_insert(1, ProcessHandle { pid: 10 }).unwrap();
    reg.try_insert(2, ProcessHandle { pid: 20 }).unwrap();
    reg.try_insert(3, ProcessHandle { pid: 30 }).unwrap();
    assert!(reg.probe_liveness(1, true));
    assert!(!reg.probe_liveness(2, false));
    assert!(!reg.contains(2));
    let survivors = reg.sweep(&vec![(1, true), (3, false)]);
    assert_eq!(survivors, vec![1]);
    assert!(reg.contains(1));
    assert!(!reg.contains(3));
    assert_eq!(
        reg.remove_and_terminate(3).unwrap_err(),
        RegistryError::NotRunning
    );
}

#[test]
fn guard_tick_restarts_offline_tunnel() {
    let mut sup = Supervisor::new();
    sup.guard.set_process_guard_enabled(true);
    let entry = GuardEntry::Official {
        config: sample_config(42),
    };
    sup.commit_start(42, 555, entry).unwrap();
    assert!(sup.guard.is_guarded(42));

    let requests = sup.tick_plan(&vec![(42, false)]);
    assert_eq!(requests.len(), 1);
    assert_eq!(requests[0].tunnel_id, 42);
    let notice = Supervisor::offline_notice(requests[0].tunnel_id);
    assert_eq!(notice.tunnel_id, 42);
    assert!(notice.message.contains("offline"));

    let ok_event = sup.restart_tunnel_outcome(42, Ok(()));
    match ok_event {
        RestartEvent::Restarted { tunnel_id, .. } => assert_eq!(tunnel_id, 42),
        RestartEvent::Failed { .. } => panic!("restart success must yield a success event"),
    }
    assert!(sup.guard.is_guarded(42));

    let err_event = sup.restart_tunnel_outcome(42, Err("spawn failed".to_string()));
    match err_event {
        RestartEvent::Failed { log } => {
            assert_eq!(log.tunnel_id, 42);
            assert!(log.message.contains("restart failed"));
            assert!(log.message.contains("spawn failed"));
        }
        RestartEvent::Restarted { .. } => panic!("restart failure must yield a failure event"),
    }
    assert!(!sup.guard.is_guarded(42));
}

#[test]
fn guard_tick_skips_manually_stopped() {
    let mut sup = Supervisor::new();
    sup.guard.set_process_guard_enabled(true);
    let entry = GuardEntry::Official {
        config: sample_config(42),
    };
    sup.commit_start(42, 555, entry).unwrap();
    let plan = sup.stop_official_tunnel(42).unwrap();
    assert_eq!(plan.handle.pid, 555);
    assert_eq!(plan.config_file_name.as_deref(), Some("g_42.ini"));

    let requests = sup.tick_plan(&vec![(42, false)]);
    assert!(requests.is_empty());
}

#[test]
fn guard_tick_leaves_running_tunnels_alone() {
    let mut sup = Supervisor::new();
    sup.guard.set_process_guard_enabled(true);
    let entry = GuardEntry::Custom {
        original_id: "mine".to_string(),
    };
    sup.commit_start(9, 77, entry).unwrap();
    let requests = sup.tick_plan(&vec![(9, true)]);
    assert!(requests.is_empty());
    assert!(sup.registry.contains(9));
}

#[test]
fn fatal_pattern_stops_guard_but_not_manual_mark() {
    let mut guard = GuardState::new();
    guard.set_process_guard_enabled(true);
    guard.add_guarded_custom_tunnel(42, "mine".to_string());
    assert!(guard.is_guarded(42));

    let warning = guard.check_log_and_stop_guard(42, "login failed: invalid token");
    let warning = warning.expect("a fatal line must yield a warning");
    assert!(warning.contains("invalid token"));
    assert!(!guard.is_guarded(42));
    assert!(!guard.is_manually_stopped(42));

    assert!(guard
        .check_log_and_stop_guard(42, "ordinary progress line")
        .is_none());
}

#[test]
fn fatal_patterns_match_case_insensitively() {
    assert_eq!(
        should_stop_guard_by_log("error: Invalid TOKEN rejected"),
        Some("invalid token".to_string())
    );
    assert_eq!(
        should_stop_guard_by_log("AUTHORIZATION FAILED for session"),
        Some("authorization failed".to_string())
    );
    assert_eq!(should_stop_guard_by_log("all good"), None);
}

#[test]
fn disabling_guard_clears_state() {
    let mut guard = GuardState::new();
    guard.set_process_guard_enabled(true);
    assert!(guard.get_process_guard_enabled());
    guard.add_guarded_custom_tunnel(1, "a".to_string());
    guard.remove_guarded_process(2, true);
    guard.set_process_guard_enabled(false);
    assert!(!guard.get_process_guard_enabled());
    assert!(!guard.is_guarded(1));
    assert!(!guard.is_manually_stopped(2));
}

#[test]
fn guard_disabled_ignores_enrollment() {
    let mut guard = GuardState::new();
    guard.add_guarded_process(5, sample_config(5));
    assert!(!guard.is_guarded(5));
}

#[test]
fn reenrollment_clears_manual_stop() {
    let mut guard = GuardState::new();
    guard.set_process_guard_enabled(true);
    guard.remove_guarded_process(7, true);
    assert!(guard.is_manually_stopped(7));
    guard.add_guarded_custom_tunnel(7, "x".to_string());
    assert!(!guard.is_manually_stopped(7));
    assert!(guard.is_guarded(7));
}

#[test]
fn prepare_start_rejects_running_tunnel() {
    let mut sup = Supervisor::new();
    sup.registry.try_insert(3, ProcessHandle { pid: 1 }).unwrap();
    let config = sample_config(3);
    match sup.prepare_official_start(&config, false) {
        Err(SupervisorError::AlreadyRunning) => {}
        _ => panic!("a running tunnel must be rejected"),
    }
    let other = sample_config(4);
    let plan = sup.prepare_official_start(&other, true).unwrap();
    assert_eq!(plan.config_file_name, "g_4.ini");
    assert_eq!(plan.binary_name, "frpc.exe");
    assert!(plan.config_content.starts_with("[common]\n"));
}

#[test]
fn stopping_a_stopped_tunnel_reports_not_running() {
    let mut sup = Supervisor::new();
    match sup.stop_official_tunnel(8) {
        Err(SupervisorError::NotRunning) => {}
        _ => panic!("a tunnel that never ran cannot be stopped"),
    }
    assert!(sup.guard.is_manually_stopped(8));
    match sup.stop_custom_tunnel(9) {
        Err(SupervisorError::NotRunning) => {}
        _ => panic!("a tunnel that never ran cannot be stopped"),
    }
}

#[test]
fn prepare_custom_start_names_files() {
    let sup = Supervisor::new();
    let plan = sup.prepare_custom_start("mine", 99, false).unwrap();
    assert_eq!(plan.config_file_name, "z_mine.ini");
    assert_eq!(plan.binary_name, "frpc");
}
