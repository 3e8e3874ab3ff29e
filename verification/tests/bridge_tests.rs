use kotlin_analyzer::bridge::AwaitOutcome;
use kotlin_analyzer::bridge::BridgeCore;
use kotlin_analyzer::bridge::DispatchOutcome;
use kotlin_analyzer::bridge::HealthDecision;
use kotlin_analyzer::bridge::HealthMonitor;
use kotlin_analyzer::bridge::InitOutcome;
use kotlin_analyzer::bridge::JvmProbe;
use kotlin_analyzer::bridge::PingOutcome;
use kotlin_analyzer::bridge::SidecarState;
use kotlin_analyzer::bridge::WaitStep;
use kotlin_analyzer::bridge::find_java;
use kotlin_analyzer::bridge::health_should_ping;
use kotlin_analyzer::bridge::sidecar_command_args;
use kotlin_analyzer::bridge::wait_for_ready;
use kotlin_analyzer::bridge::REQUEST_TIMEOUT_MS;
use kotlin_analyzer::bridge::START_TIMEOUT_MS;
use kotlin_analyzer::config::Config;
use kotlin_analyzer::errors::BridgeError;
use kotlin_analyzer::errors::Error;
use kotlin_analyzer::jsonrpc::Response;
use kotlin_analyzer::jsonrpc::ResponseError;

fn new_core() -> BridgeCore {
    BridgeCore::new(Config::default())
}

#[test]
fn initial_state_is_stopped() {
    let core = new_core();
    assert_eq!(core.state(), SidecarState::Stopped);
}

#[test]
fn next_id_increments() {
    let mut core = new_core();
    let id1 = core.next_id();
    let id2 = core.next_id();
    assert_eq!(id2, id1 + 1);
}

#[test]
fn request_before_start_returns_not_ready() {
    // the state is Stopped, so the wait decision fails immediately
    let core = new_core();
    let step = wait_for_ready(core.state());
    assert!(
        matches!(step, WaitStep::Fail(BridgeError::NotReady(_))),
        "expected NotReady, got: {:?}",
        step
    );
}

#[test]
fn wait_for_ready_returns_immediately_when_ready() {
    let mut core = new_core();
    core.begin_start();
    let result = core.on_init_outcome(InitOutcome::Succeeded);
    assert!(result.is_ok());
    assert!(matches!(wait_for_ready(core.state()), WaitStep::Proceed));
}

#[test]
fn wait_for_ready_blocks_during_starting() {
    let mut core = new_core();
    core.begin_start();
    // a caller arriving now keeps waiting ...
    assert!(matches!(wait_for_ready(core.state()), WaitStep::KeepWaiting));
    // ... and is released once startup completes
    core.on_init_outcome(InitOutcome::Succeeded).unwrap();
    let step = wait_for_ready(core.state());
    assert!(matches!(step, WaitStep::Proceed), "expected Ok, got: {:?}", step);
}

#[test]
fn wait_for_ready_returns_error_on_degraded() {
    let mut core = new_core();
    core.begin_start();
    core.on_init_outcome(InitOutcome::Succeeded).unwrap();
    core.on_health_exhausted();
    assert_eq!(core.state(), SidecarState::Degraded);
    assert!(matches!(wait_for_ready(core.state()), WaitStep::Fail(_)));
}

#[test]
fn cancel_all_pending_sends_errors() {
    let mut core = new_core();
    let req = core.begin_request("hover", None);
    let id = req.id.unwrap();

    let (cancelled, err) = core.on_reader_closed("test crash");
    assert_eq!(cancelled, vec![id]);
    assert!(matches!(err, BridgeError::Crashed(m) if m == "test crash"));
}

fn response_from(json: &str) -> Response {
    kotlin_analyzer::jsonrpc::parse_response(json.as_bytes()).unwrap()
}

#[test]
fn scenario_happy_request() {
    // start the bridge, issue a request, answer it with a result
    let mut core = new_core();
    core.begin_start();
    core.on_init_outcome(InitOutcome::Succeeded).unwrap();
    assert!(matches!(wait_for_ready(core.state()), WaitStep::Proceed));

    let req = core.begin_request("hover", Some(r#"{"uri":"file:///a"}"#.into()));
    let id = req.id.unwrap();

    let resp = response_from(&format!(
        r#"{{"jsonrpc":"2.0","id":{id},"result":{{"ok":true}}}}"#
    ));
    match core.dispatch_response(resp) {
        DispatchOutcome::Deliver { id: got, payload } => {
            assert_eq!(got, id);
            let value = payload.unwrap().unwrap();
            let expected: serde_json::Value = serde_json::from_str(r#"{"ok":true}"#).unwrap();
            assert_eq!(value, expected);
        }
        other => panic!("expected a delivery, got {:?}", other),
    }
}

#[test]
fn scenario_timeout() {
    // a silent sidecar: the response wait runs out
    let result = BridgeCore::finish_request(AwaitOutcome::TimedOut);
    assert!(matches!(
        result,
        Err(Error::Bridge(BridgeError::Timeout(ms))) if ms == REQUEST_TIMEOUT_MS
    ));
    assert_eq!(REQUEST_TIMEOUT_MS, 60000);
}

#[test]
fn scenario_crash_cancels_pending() {
    // three in-flight requests; then the sidecar's stdout closes
    let mut core = new_core();
    core.begin_start();
    core.on_init_outcome(InitOutcome::Succeeded).unwrap();
    let a = core.begin_request("hover", None).id.unwrap();
    let b = core.begin_request("completion", None).id.unwrap();
    let c = core.begin_request("definition", None).id.unwrap();

    let (cancelled, err) = core.on_reader_closed("sidecar process exited");
    assert_eq!(cancelled, vec![a, b, c]);
    assert!(matches!(err, BridgeError::Crashed(m) if m == "sidecar process exited"));
    assert_eq!(core.state(), SidecarState::Degraded);
}

#[test]
fn scenario_startup_buffering() {
    // a request issued during Starting goes through once Ready
    let mut core = new_core();
    core.begin_start();
    assert!(matches!(wait_for_ready(core.state()), WaitStep::KeepWaiting));
    core.on_init_outcome(InitOutcome::Succeeded).unwrap();
    assert!(matches!(wait_for_ready(core.state()), WaitStep::Proceed));
    let req = core.begin_request("hover", None);
    let id = req.id.unwrap();
    let resp = response_from(&format!(
        r#"{{"jsonrpc":"2.0","id":{id},"result":{{"contents":"doc"}}}}"#
    ));
    assert!(matches!(
        core.dispatch_response(resp),
        DispatchOutcome::Deliver { .. }
    ));
}

#[test]
fn startup_failure_reports_not_ready_to_waiters() {
    let mut core = new_core();
    core.begin_start();
    let result = core.on_init_outcome(InitOutcome::TimedOut);
    assert!(matches!(
        result,
        Err(Error::Bridge(BridgeError::Timeout(ms))) if ms == START_TIMEOUT_MS
    ));
    assert_eq!(core.state(), SidecarState::Stopped);
    assert!(matches!(wait_for_ready(core.state()), WaitStep::Fail(_)));
}

#[test]
fn request_ids_count_up_from_one() {
    let mut core = new_core();
    let mut expected: u64 = 1;
    for method in ["a", "b", "c", "d", "e"] {
        let req = core.begin_request(method, None);
        assert_eq!(req.id, Some(expected));
        expected += 1;
    }
}

#[test]
fn dispatch_without_id_is_dropped() {
    let mut core = new_core();
    core.begin_request("hover", None);
    let resp = response_from(r#"{"jsonrpc":"2.0","result":{"ok":true}}"#);
    assert!(matches!(core.dispatch_response(resp), DispatchOutcome::NoId));
}

#[test]
fn dispatch_unknown_id_is_dropped() {
    let mut core = new_core();
    core.begin_request("hover", None);
    let resp = response_from(r#"{"jsonrpc":"2.0","id":99,"result":null}"#);
    assert!(matches!(
        core.dispatch_response(resp),
        DispatchOutcome::UnknownId { id: 99 }
    ));
}

#[test]
fn dispatch_error_becomes_malformed_response() {
    let mut core = new_core();
    let id = core.begin_request("hover", None).id.unwrap();
    let resp = Response {
        jsonrpc: "2.0".into(),
        id: Some(id),
        result: None,
        error: Some(ResponseError {
            code: -32601,
            message: "Method not found".into(),
            data: None,
        }),
    };
    match core.dispatch_response(resp) {
        DispatchOutcome::Deliver { payload, .. } => match payload {
            Err(Error::Bridge(BridgeError::MalformedResponse(m))) => {
                assert_eq!(m, "error -32601: Method not found");
            }
            other => panic!("expected MalformedResponse, got {:?}", other),
        },
        other => panic!("expected a delivery, got {:?}", other),
    }
}

#[test]
fn shutdown_cancels_and_stops() {
    let mut core = new_core();
    core.begin_start();
    core.on_init_outcome(InitOutcome::Succeeded).unwrap();
    let id = core.begin_request("hover", None).id.unwrap();

    let actions = core.on_shutdown();
    assert_eq!(actions.cancelled, vec![id]);
    assert!(matches!(actions.cancel_error, BridgeError::Crashed(m) if m == "server shutting down"));
    let farewell = actions.shutdown_request.unwrap();
    assert_eq!(farewell.method, "shutdown");
    assert_eq!(core.state(), SidecarState::Stopped);

    // a second shutdown is a no-op
    let again = core.on_shutdown();
    assert!(again.cancelled.is_empty());
    assert!(again.shutdown_request.is_none());
}

#[test]
fn health_check_degrades_after_three_failures() {
    let mut hm = HealthMonitor::new();
    assert_eq!(hm.on_ping_outcome(PingOutcome::TimedOut), HealthDecision::Continue);
    assert_eq!(hm.on_ping_outcome(PingOutcome::ErrorResponse), HealthDecision::Continue);
    assert_eq!(hm.on_ping_outcome(PingOutcome::TimedOut), HealthDecision::Degrade);
}

#[test]
fn health_check_success_resets_failures() {
    let mut hm = HealthMonitor::new();
    hm.on_ping_outcome(PingOutcome::TimedOut);
    hm.on_ping_outcome(PingOutcome::TimedOut);
    assert_eq!(hm.on_ping_outcome(PingOutcome::Success), HealthDecision::Continue);
    assert_eq!(hm.consecutive_failures, 0);
    assert_eq!(hm.on_ping_outcome(PingOutcome::TimedOut), HealthDecision::Continue);
}

#[test]
fn health_check_channel_drop_degrades_at_once() {
    let mut hm = HealthMonitor::new();
    assert_eq!(hm.on_ping_outcome(PingOutcome::ChannelDropped), HealthDecision::Degrade);
    assert!(health_should_ping(SidecarState::Ready));
    assert!(!health_should_ping(SidecarState::Degraded));
}

#[test]
fn find_java_prefers_tool_home() {
    let probe = JvmProbe {
        tool_home: Some("/opt/tool-jdk".into()),
        tool_home_java_exists: true,
        java_home: Some("/opt/jdk".into()),
        java_home_java_exists: true,
        path_java: Some("/usr/bin/java".into()),
    };
    assert_eq!(find_java(&probe).unwrap(), "/opt/tool-jdk/bin/java");
}

#[test]
fn find_java_falls_back_to_java_home_then_path() {
    let mut probe = JvmProbe {
        tool_home: None,
        tool_home_java_exists: false,
        java_home: Some("/opt/jdk".into()),
        java_home_java_exists: true,
        path_java: Some("/usr/bin/java".into()),
    };
    assert_eq!(find_java(&probe).unwrap(), "/opt/jdk/bin/java");
    probe.java_home_java_exists = false;
    assert_eq!(find_java(&probe).unwrap(), "/usr/bin/java");
    probe.path_java = None;
    assert!(find_java(&probe).is_err());
}

#[test]
fn sidecar_command_line_shape() {
    let args = sidecar_command_args("512m", "/opt/sidecar.jar");
    assert_eq!(args.len(), 9);
    assert_eq!(args[0], "-Xmx512m");
    assert_eq!(args[1], "--add-opens");
    assert_eq!(args[7], "-jar");
    assert_eq!(args[8], "/opt/sidecar.jar");
}

#[test]
fn update_config_affects_future_starts() {
    let mut core = new_core();
    let mut cfg = Config::default();
    cfg.sidecar_max_memory = "1g".into();
    core.update_config(cfg);
    assert_eq!(core.config.sidecar_max_memory, "1g");
}

#[test]
fn spawn_failure_stops_the_bridge() {
    let mut core = new_core();
    core.begin_start();
    let e = core.on_spawn_failure("no such file");
    assert!(matches!(e, Error::Bridge(BridgeError::SpawnFailed(m)) if m == "no such file"));
    assert_eq!(core.state(), SidecarState::Stopped);
    assert!(matches!(wait_for_ready(core.state()), WaitStep::Fail(_)));
}
