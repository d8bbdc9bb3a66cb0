use jarvis_ipc::json::JsonValue;
use jarvis_ipc::python_process::{PythonProcess, CallError, ControlError, LineOutcome};
use jarvis_ipc::python_state::{PythonState, uses_interpreter};
use jarvis_ipc::correlation::CorrelationTable;
use jarvis_ipc::MAX_CONCURRENT_CALLS;

fn jeq(a: &JsonValue, b: &JsonValue) -> bool {
    match (a, b) {
        (JsonValue::Null, JsonValue::Null) => true,
        (JsonValue::Bool(x), JsonValue::Bool(y)) => x == y,
        (JsonValue::Number(x), JsonValue::Number(y)) => x == y,
        (JsonValue::Text(x), JsonValue::Text(y)) => x == y,
        (JsonValue::Array(xs), JsonValue::Array(ys)) => {
            xs.len() == ys.len() && xs.iter().zip(ys.iter()).all(|(x, y)| jeq(x, y))
        }
        (JsonValue::Object(xs), JsonValue::Object(ys)) => {
            xs.len() == ys.len()
                && xs.iter().zip(ys.iter()).all(|(x, y)| x.0 == y.0 && jeq(&x.1, &y.1))
        }
        _ => false,
    }
}

fn started_gateway() -> PythonState {
    let mut state = PythonState::new("/opt/worker/engine".to_string());
    state.start(Ok(())).unwrap();
    state
}

fn success_line(id: &str, result_json: &str) -> String {
    format!("{{\"id\":\"{}\",\"success\":true,\"result\":{}}}", id, result_json)
}

// ===== Supervisor lifecycle =====

#[test]
fn test_python_process_creation() {
    let process = PythonProcess::new();
    assert!(!process.is_alive());
}

#[test]
fn test_python_process_default() {
    let process = PythonProcess::default();
    assert!(!process.is_alive());
}

#[test]
fn test_python_process_start_with_invalid_path() {
    let mut process = PythonProcess::new();
    let result = process.start(Err("No such file or directory".to_string()));

    assert!(result.is_err());
    assert!(!process.is_alive());
    assert!(matches!(result, Err(CallError::StartFailure(_))));
}

#[test]
fn test_python_process_stop_without_start() {
    let mut process = PythonProcess::new();
    let result = process.stop();

    assert!(result.is_err());
    assert_eq!(result.unwrap_err(), ControlError::NotRunning);
    assert!(!process.is_alive());
}

#[test]
fn test_python_process_check_health_without_start() {
    let mut process = PythonProcess::new();
    let is_healthy = process.check_health(false);

    assert!(!is_healthy);
}

#[test]
fn test_python_process_is_alive_initial_state() {
    let process = PythonProcess::new();
    assert!(!process.is_alive(), "New process should not be alive");
}

#[test]
fn start_is_a_no_op_when_already_running() {
    let mut process = PythonProcess::new();
    process.start(Ok(())).unwrap();
    assert!(process.is_alive());
    process.start(Ok(())).unwrap();
    assert!(process.is_alive());
}

#[test]
fn failed_spawn_leaves_the_supervisor_absent() {
    let mut process = PythonProcess::new();
    match process.start(Err("spawn refused".to_string())) {
        Err(CallError::StartFailure(m)) => assert!(m.contains("spawn refused")),
        other => panic!("expected a start failure, got {:?}", other),
    }
    assert!(!process.is_alive());
}

// ===== Gateway state =====

#[test]
fn test_python_state_creation() {
    let state = PythonState::new("/path/to/engine".to_string());
    assert_eq!(state.engine_path(), "/path/to/engine");
}

#[test]
fn test_python_state_creation_with_empty_path() {
    let state = PythonState::new("".to_string());
    assert_eq!(state.engine_path(), "");
}

#[test]
fn test_python_state_creation_with_relative_path() {
    let state = PythonState::new("./engine/jarvis-engine".to_string());
    assert_eq!(state.engine_path(), "./engine/jarvis-engine");
}

#[test]
fn test_engine_path_getter() {
    let path = "/usr/local/bin/jarvis-engine";
    let state = PythonState::new(path.to_string());

    assert_eq!(state.engine_path(), path);
}

#[test]
fn test_engine_path_with_spaces() {
    let path = "/path with spaces/jarvis-engine";
    let state = PythonState::new(path.to_string());

    assert_eq!(state.engine_path(), path);
}

#[test]
fn test_engine_path_with_unicode() {
    let path = "/路径/jarvis-engine";
    let state = PythonState::new(path.to_string());

    assert_eq!(state.engine_path(), path);
}

#[test]
fn test_uuid_generation_uniqueness() {
    let id1 = uuid::Uuid::new_v4().to_string();
    let id2 = uuid::Uuid::new_v4().to_string();

    assert_ne!(id1, id2, "UUIDs should be unique");
    assert_eq!(id1.len(), 36, "UUID should be 36 characters");
    assert_eq!(id2.len(), 36, "UUID should be 36 characters");
}

// ===== Calls through the gateway =====

#[test]
fn a_successful_response_returns_exactly_the_worker_value() {
    let mut state = started_gateway();
    let (id, line) = state
        .open_call("echo", &JsonValue::Text("hi".to_string()))
        .unwrap();
    assert_eq!(id.len(), 36);
    assert!(line.contains(&id));
    assert!(line.contains("echo"));

    let outcome = state.handle_line(&success_line(&id, "{\"x\":1}"));
    let response = match outcome {
        LineOutcome::Delivered(response) => response,
        other => panic!("expected delivery, got {:?}", other),
    };
    assert_eq!(response.id, id);

    let value = PythonProcess::conclude_call(response).unwrap();
    let expected = JsonValue::Object(vec![("x".to_string(), JsonValue::Number(1))]);
    assert!(jeq(&value, &expected));
}

#[test]
fn calls_without_a_running_worker_fail_with_a_transport_failure() {
    let mut state = PythonState::new("/opt/worker/engine".to_string());
    match state.open_call("echo", &JsonValue::Null) {
        Err(CallError::TransportFailure(_)) => {}
        other => panic!("expected a transport failure, got {:?}", other),
    }
}

#[test]
fn a_timed_out_call_is_discarded_and_its_late_response_is_an_orphan() {
    let mut state = started_gateway();
    let (id, _line) = state.open_call("slow", &JsonValue::Null).unwrap();
    assert_eq!(state.pending_ids(), vec![id.clone()]);

    let err = state.time_out_call(&id);
    assert!(matches!(err, CallError::Timeout));
    assert!(state.pending_ids().is_empty());

    match state.handle_line(&success_line(&id, "null")) {
        LineOutcome::Orphan(orphan_id) => assert_eq!(orphan_id, id),
        other => panic!("expected an orphan, got {:?}", other),
    }
    assert!(state.pending_ids().is_empty());
}

#[test]
fn a_failed_write_discards_the_call_and_reports_transport_failure() {
    let mut state = started_gateway();
    let (id, _line) = state.open_call("echo", &JsonValue::Null).unwrap();
    let err = state.write_failed(&id, "broken pipe".to_string());
    match err {
        CallError::TransportFailure(m) => assert_eq!(m, "broken pipe"),
        other => panic!("expected a transport failure, got {:?}", other),
    }
    assert!(state.pending_ids().is_empty());
}

#[test]
fn a_worker_reported_failure_passes_through_verbatim() {
    let mut state = started_gateway();
    let (id, _line) = state.open_call("boom", &JsonValue::Null).unwrap();
    let line = format!("{{\"id\":\"{}\",\"success\":false,\"error\":\"kaput\"}}", id);
    let response = match state.handle_line(&line) {
        LineOutcome::Delivered(response) => response,
        other => panic!("expected delivery, got {:?}", other),
    };
    match PythonProcess::conclude_call(response) {
        Err(CallError::RemoteError(m)) => assert_eq!(m, "kaput"),
        other => panic!("expected a remote error, got {:?}", other),
    }
}

#[test]
fn a_success_without_a_result_member_concludes_as_null() {
    let mut state = started_gateway();
    let (id, _line) = state.open_call("fire_and_forget", &JsonValue::Null).unwrap();
    let line = format!("{{\"id\":\"{}\",\"success\":true}}", id);
    let response = match state.handle_line(&line) {
        LineOutcome::Delivered(response) => response,
        other => panic!("expected delivery, got {:?}", other),
    };
    let value = PythonProcess::conclude_call(response).unwrap();
    assert!(jeq(&value, &JsonValue::Null));
}

#[test]
fn a_failure_without_a_message_concludes_with_the_fixed_message() {
    let mut state = started_gateway();
    let (id, _line) = state.open_call("boom", &JsonValue::Null).unwrap();
    let line = format!("{{\"id\":\"{}\",\"success\":false}}", id);
    let response = match state.handle_line(&line) {
        LineOutcome::Delivered(response) => response,
        other => panic!("expected delivery, got {:?}", other),
    };
    match PythonProcess::conclude_call(response) {
        Err(CallError::RemoteError(m)) => assert_eq!(m, "Unknown error"),
        other => panic!("expected a remote error, got {:?}", other),
    }
}

#[test]
fn malformed_lines_are_dropped_without_touching_other_calls() {
    let mut state = started_gateway();
    let (id, _line) = state.open_call("echo", &JsonValue::Null).unwrap();
    assert!(matches!(state.handle_line("not json at all"), LineOutcome::Malformed));
    assert!(matches!(state.handle_line("{\"id\":17,\"success\":true}"), LineOutcome::Malformed));
    assert_eq!(state.pending_ids(), vec![id]);
}

// ===== Admission =====

#[test]
fn the_admission_bound_refuses_the_call_past_the_limit() {
    let mut state = started_gateway();
    for i in 0..MAX_CONCURRENT_CALLS {
        assert!(state.try_admit(), "admission {} of {} refused", i + 1, MAX_CONCURRENT_CALLS);
    }
    assert_eq!(state.active_calls(), MAX_CONCURRENT_CALLS);
    assert!(!state.try_admit(), "admission past the bound must be refused");
    assert_eq!(state.active_calls(), MAX_CONCURRENT_CALLS);

    state.release_permit();
    assert!(state.try_admit(), "a freed permit admits the waiting call");
    assert_eq!(state.active_calls(), MAX_CONCURRENT_CALLS);
}

// ===== Stop and teardown =====

#[test]
fn stop_hands_back_every_outstanding_call_to_fail() {
    let mut state = started_gateway();
    let (id_a, _) = state.open_call("one", &JsonValue::Null).unwrap();
    let (id_b, _) = state.open_call("two", &JsonValue::Null).unwrap();

    let mut failed = state.stop().unwrap();
    failed.sort();
    let mut expected = vec![id_a.clone(), id_b.clone()];
    expected.sort();
    assert_eq!(failed, expected);
    assert!(!state.is_alive());
    assert!(state.pending_ids().is_empty());

    match state.handle_line(&success_line(&id_a, "1")) {
        LineOutcome::Orphan(orphan_id) => assert_eq!(orphan_id, id_a),
        other => panic!("expected an orphan after stop, got {:?}", other),
    }
}

#[test]
fn test_stop_without_starting() {
    let mut state = PythonState::new("/path/to/engine".to_string());
    let result = state.stop();
    assert!(result.is_err());
}

#[test]
fn test_multiple_stop_calls() {
    let mut state = PythonState::new("/path/to/engine".to_string());

    let result1 = state.stop();
    assert!(result1.is_err());

    let result2 = state.stop();
    assert!(result2.is_err());
}

// ===== Health =====

#[test]
fn test_check_health_without_process() {
    let mut state = PythonState::new("/path/to/engine".to_string());
    let is_healthy = state.check_health(false);
    assert!(!is_healthy);
}

#[test]
fn an_observed_exit_is_reported_unhealthy_once_and_a_restart_recovers() {
    let mut state = started_gateway();
    let (id, _) = state.open_call("echo", &JsonValue::Null).unwrap();

    assert!(state.check_health(false), "a live worker is healthy");

    assert!(!state.check_health(true), "an exited worker is unhealthy");
    assert!(!state.is_alive());
    assert!(state.pending_ids().is_empty(), "an exit discards every slot");

    assert!(!state.check_health(false), "an absent worker stays unhealthy");

    let failed = state.begin_restart();
    assert!(failed.is_empty());
    state.start(Ok(())).unwrap();
    assert!(state.is_alive(), "the restart attaches a worker again");

    match state.handle_line(&success_line(&id, "null")) {
        LineOutcome::Orphan(orphan_id) => assert_eq!(orphan_id, id),
        other => panic!("expected an orphan after the exit, got {:?}", other),
    }
}

#[test]
fn a_restart_discards_every_outstanding_call() {
    let mut state = started_gateway();
    let (id, _) = state.open_call("echo", &JsonValue::Null).unwrap();
    let failed = state.begin_restart();
    assert_eq!(failed, vec![id]);
    assert!(!state.is_alive());
    state.start(Ok(())).unwrap();
    assert!(state.is_alive());
    assert!(state.pending_ids().is_empty());
}

// ===== Correlation under concurrency =====

#[test]
fn out_of_order_responses_reach_their_own_callers() {
    let mut state = started_gateway();
    let (id_a, _) = state.open_call("same_function", &JsonValue::Number(1)).unwrap();
    let (id_b, _) = state.open_call("same_function", &JsonValue::Number(2)).unwrap();
    assert_ne!(id_a, id_b);

    let response_b = match state.handle_line(&success_line(&id_b, "2")) {
        LineOutcome::Delivered(response) => response,
        other => panic!("expected delivery for the second call, got {:?}", other),
    };
    assert_eq!(response_b.id, id_b);
    assert!(jeq(&response_b.result.unwrap(), &JsonValue::Number(2)));
    assert_eq!(state.pending_ids(), vec![id_a.clone()]);

    let response_a = match state.handle_line(&success_line(&id_a, "1")) {
        LineOutcome::Delivered(response) => response,
        other => panic!("expected delivery for the first call, got {:?}", other),
    };
    assert_eq!(response_a.id, id_a);
    assert!(jeq(&response_a.result.unwrap(), &JsonValue::Number(1)));
    assert!(state.pending_ids().is_empty());
}

#[test]
fn a_response_is_delivered_at_most_once() {
    let mut state = started_gateway();
    let (id, _) = state.open_call("echo", &JsonValue::Null).unwrap();
    assert!(matches!(state.handle_line(&success_line(&id, "1")), LineOutcome::Delivered(_)));
    assert!(matches!(state.handle_line(&success_line(&id, "1")), LineOutcome::Orphan(_)));
}

#[test]
fn minted_identifiers_are_wire_safe() {
    let mut state = started_gateway();
    let (id, line) = state.open_call("echo", &JsonValue::Null).unwrap();
    assert_eq!(id.len(), 36);
    assert!(id.chars().all(|c| c.is_ascii_hexdigit() || c == '-'));
    assert!(!line.contains('\n'));
}

// ===== Launch decision =====

#[test]
fn script_paths_run_through_the_interpreter() {
    assert!(uses_interpreter("daemon.py"));
    assert!(uses_interpreter("/opt/engine/worker.py"));
    assert!(!uses_interpreter("/opt/engine/jarvis-engine"));
    assert!(!uses_interpreter("worker.py.bak"));
    assert!(!uses_interpreter("py"));
}

// ===== The correlation table itself =====

#[test]
fn a_slot_is_single_use_and_never_registered_twice() {
    let mut table = CorrelationTable::new();
    assert_eq!(table.len(), 0);

    assert!(table.register("a".to_string()));
    assert!(!table.register("a".to_string()), "a duplicate registration is refused");
    assert!(table.register("b".to_string()));
    assert_eq!(table.len(), 2);
    assert!(table.contains_id(&"a".to_string()));

    assert!(table.remove_id(&"a".to_string()), "the first removal delivers");
    assert!(!table.remove_id(&"a".to_string()), "the second finds the slot gone");
    assert!(!table.contains_id(&"a".to_string()));

    let drained = table.drain();
    assert_eq!(drained, vec!["b".to_string()]);
    assert_eq!(table.len(), 0);
}
