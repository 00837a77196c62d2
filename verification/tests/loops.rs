use runesdex_solver::dispatch::dispatch_step;
use runesdex_solver::dispatch::handshake_response;
use runesdex_solver::dispatch::DispatchAction;
use runesdex_solver::dispatch::DispatchEvent;
use runesdex_solver::dispatch::DispatchState;
use runesdex_solver::keepalive::keepalive_step;
use runesdex_solver::keepalive::ProbeAction;
use runesdex_solver::keepalive::ProbeEvent;
use runesdex_solver::keepalive::ProbeState;
use runesdex_solver::types::SolverError;

fn push_frame() -> String {
    "{\"jsonrpc\":\"2.0\",\"method\":\"subscribe\",\"params\":{\
     \"subscription\":\"sub-2\",\"quote_id\":\"q9\",\
     \"defuse_asset_identifier_in\":\"BTC.rune\",\
     \"defuse_asset_identifier_out\":\"USDC.near\",\
     \"exact_amount_in\":\"100\",\"exact_amount_out\":null}}"
        .to_string()
}

#[test]
fn receive_failure_causes_exactly_one_reconnect_then_resumes() {
    let mut reconnect_attempts = 0;
    let state = DispatchState::AwaitingFrame { subscription: "sub-1".to_string() };

    // The simulated transport fails on receive once.
    let (state, action) = dispatch_step(state, DispatchEvent::ReceiveFailed);
    if matches!(action, DispatchAction::AttemptReconnect) {
        reconnect_attempts += 1;
    }
    assert!(matches!(state, DispatchState::Reconnecting));

    // One connect and one handshake succeed; processing resumes.
    let (state, action) = dispatch_step(
        state,
        DispatchEvent::ReconnectSucceeded { subscription: "sub-2".to_string() },
    );
    if matches!(action, DispatchAction::AttemptReconnect) {
        reconnect_attempts += 1;
    }
    match &state {
        DispatchState::AwaitingFrame { subscription } => assert_eq!(subscription, "sub-2"),
        _ => panic!("expected to await frames again"),
    }

    // The next intent is dispatched without operator intervention.
    let (state, action) = dispatch_step(state, DispatchEvent::TextFrame { text: push_frame() });
    if matches!(action, DispatchAction::AttemptReconnect) {
        reconnect_attempts += 1;
    }
    match action {
        DispatchAction::RunPipeline { intent } => assert_eq!(intent.quote_id, "q9"),
        _ => panic!("expected the pipeline to run"),
    }
    assert!(matches!(state, DispatchState::Dispatching { .. }));
    assert_eq!(reconnect_attempts, 1);
}

#[test]
fn non_intent_frames_are_dropped_not_fatal() {
    let state = DispatchState::AwaitingFrame { subscription: "s".to_string() };
    let (state, action) = dispatch_step(
        state,
        DispatchEvent::TextFrame { text: "not json-rpc at all".to_string() },
    );
    assert!(matches!(action, DispatchAction::AwaitFrame));
    assert!(matches!(state, DispatchState::AwaitingFrame { .. }));
}

#[test]
fn pipeline_failure_drops_the_intent_and_continues() {
    let state = DispatchState::AwaitingFrame { subscription: "s".to_string() };
    let (state, _) = dispatch_step(state, DispatchEvent::TextFrame { text: push_frame() });
    let (state, action) = dispatch_step(state, DispatchEvent::PipelineFailed);
    assert!(matches!(action, DispatchAction::AwaitFrame));
    assert!(matches!(state, DispatchState::AwaitingFrame { .. }));
}

#[test]
fn reconnect_failure_stops_the_machine() {
    let state = DispatchState::AwaitingFrame { subscription: "s".to_string() };
    let (state, _) = dispatch_step(state, DispatchEvent::ConnectionClosed);
    let (state, action) = dispatch_step(
        state,
        DispatchEvent::ReconnectFailed { error: SolverError::HandshakeFailed },
    );
    assert!(matches!(state, DispatchState::Stopped { error: SolverError::HandshakeFailed }));
    assert!(matches!(action, DispatchAction::Stop { error: SolverError::HandshakeFailed }));
}

#[test]
fn silent_probe_declares_failure_within_one_interval() {
    let mut failures = 0;

    // The interval elapses on an idle connection: one probe goes out.
    let (state, action) = keepalive_step(ProbeState::Idle, ProbeEvent::Tick);
    assert!(matches!(action, ProbeAction::SendProbe));
    assert_eq!(state, ProbeState::AwaitingReply);

    // The simulated transport never replies: the next tick declares
    // failure, exactly once.
    let (state, action) = keepalive_step(state, ProbeEvent::Tick);
    if matches!(action, ProbeAction::DeclareFailed) {
        failures += 1;
    }
    assert_eq!(state, ProbeState::Idle);
    assert_eq!(failures, 1);
}

#[test]
fn traffic_during_probe_wait_is_forwarded() {
    let (state, _) = keepalive_step(ProbeState::Idle, ProbeEvent::Tick);
    let (state, action) = keepalive_step(
        state,
        ProbeEvent::OtherFrame { text: "application traffic".to_string() },
    );
    match action {
        ProbeAction::ForwardFrame { text } => assert_eq!(text, "application traffic"),
        _ => panic!("expected the frame to be forwarded"),
    }
    assert_eq!(state, ProbeState::AwaitingReply);

    let (state, action) = keepalive_step(state, ProbeEvent::PongReceived);
    assert!(matches!(action, ProbeAction::Wait));
    assert_eq!(state, ProbeState::Idle);
}

#[test]
fn handshake_reply_yields_subscription_id() {
    let r = handshake_response("{\"jsonrpc\":\"2.0\",\"id\":1,\"result\":\"sub-7\"}");
    assert_eq!(r.unwrap(), "sub-7");
}

#[test]
fn malformed_handshake_reply_is_fatal() {
    let r = handshake_response("{\"unexpected\":true}");
    assert_eq!(r.unwrap_err(), SolverError::HandshakeFailed);
}
