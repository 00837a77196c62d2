//! The intent dispatcher: a state machine from (state, transport event) to
//! (next state, action). The surrounding runtime owns the socket, performs
//! each action and hands the outcome back as the next event; every decision
//! stands here, verified.

use vstd::prelude::*;

use crate::codec;
use crate::types::SolverError;
use crate::types::SwapIntent;
use crate::types::SwapQuote;

verus! {

/// Where the dispatcher stands between two events.
pub enum DispatchState {
    /// Waiting for the next inbound frame under a live subscription.
    AwaitingFrame { subscription: String },
    /// Running the quote pipeline for one intent.
    Dispatching { subscription: String, intent: SwapIntent },
    /// The connection failed; a reconnect is under way.
    Reconnecting,
    /// Terminal: reconnection itself failed.
    Stopped { error: SolverError },
}

/// What the runtime reports to the dispatcher.
pub enum DispatchEvent {
    /// A text frame arrived.
    TextFrame { text: String },
    /// A non-text frame arrived.
    OtherFrame,
    /// The peer closed the connection.
    ConnectionClosed,
    /// Receiving failed at the transport level.
    ReceiveFailed,
    /// The pipeline produced a quote for the intent being dispatched.
    PipelineSucceeded { quote: SwapQuote },
    /// The pipeline dropped the intent being dispatched.
    PipelineFailed,
    /// The outbound quote frame went out.
    SendSucceeded,
    /// Sending the outbound quote frame failed.
    SendFailed,
    /// Connect and handshake both succeeded; a fresh subscription is live.
    ReconnectSucceeded { subscription: String },
    /// Connect or handshake failed; the error is fatal.
    ReconnectFailed { error: SolverError },
}

/// What the runtime must do before the next event.
pub enum DispatchAction {
    /// Read the next frame.
    AwaitFrame,
    /// Run the quote pipeline on the carried intent.
    RunPipeline { intent: SwapIntent },
    /// Send the carried frame.
    SendQuote { frame: String },
    /// Tear down the connection, connect anew and re-run the handshake.
    AttemptReconnect,
    /// Stop with the carried fatal error.
    Stop { error: SolverError },
}

/// The intent of `it`, together with `sub`, seen as push-frame fields.
pub open spec fn parsed_fields(sub: Seq<char>, it: SwapIntent) -> codec::PushFields {
    codec::PushFields {
        subscription: sub,
        quote_id: it.quote_id@,
        asset_in: it.defuse_asset_identifier_in@,
        asset_out: it.defuse_asset_identifier_out@,
        exact_amount_in: match it.exact_amount_in {
            Option::Some(s) => Option::Some(s@),
            Option::None => Option::None,
        },
        exact_amount_out: match it.exact_amount_out {
            Option::Some(s) => Option::Some(s@),
            Option::None => Option::None,
        },
    }
}

/// A transport-level failure: the connection is gone or unusable.
pub open spec fn is_transport_failure(event: DispatchEvent) -> bool {
    ||| event is ConnectionClosed
    ||| event is ReceiveFailed
    ||| event is SendFailed
}

/// One step of the dispatcher.
///
/// From `AwaitingFrame`, a text frame that parses as an intent push moves
/// to `Dispatching` and asks for the pipeline; any other frame is dropped
/// and the next one awaited. A transport failure from any live state moves
/// to `Reconnecting` and asks for exactly one reconnect attempt. From
/// `Dispatching`, the pipeline's outcome returns the machine to
/// `AwaitingFrame`, with the encoded quote-response frame to send on
/// success and nothing on failure. A reconnect outcome either restores
/// `AwaitingFrame` under the fresh subscription or stops the machine with
/// the fatal error. `Stopped` is terminal.
pub fn dispatch_step(state: DispatchState, event: DispatchEvent) -> (r: (
    DispatchState,
    DispatchAction,
))
    ensures
        state matches DispatchState::Stopped { error } ==> r.0 == state && r.1
            == (DispatchAction::Stop { error }),
        !(state is Stopped) && is_transport_failure(event) ==> r.0 is Reconnecting && r.1
            is AttemptReconnect,
        state matches DispatchState::AwaitingFrame { subscription } ==> !is_transport_failure(
            event,
        ) ==> {
            &&& event matches DispatchEvent::TextFrame { text } ==> {
                if codec::spec_parse_push(text@) is Some {
                    r.0 matches DispatchState::Dispatching { subscription: s2, intent: i2 } && s2
                        == subscription && (codec::spec_parse_push(text@) matches Some(f) && f
                        == parsed_fields(f.subscription, i2)) && r.1 == (
                    DispatchAction::RunPipeline { intent: i2 })
                } else {
                    r.0 == state && r.1 is AwaitFrame
                }
            }
            &&& !(event is TextFrame) ==> r.0 == state && r.1 is AwaitFrame
        },
        state matches DispatchState::Dispatching { subscription, intent } ==> !is_transport_failure(
            event,
        ) ==> {
            &&& event matches DispatchEvent::PipelineSucceeded { quote } ==> r.0 == (
            DispatchState::AwaitingFrame { subscription }) && (
            r.1 matches DispatchAction::SendQuote { frame } && frame@
                == codec::quote_response_frame_text(quote))
            &&& event is PipelineFailed ==> r.0 == (DispatchState::AwaitingFrame { subscription })
                && r.1 is AwaitFrame
            &&& !(event is PipelineSucceeded) && !(event is PipelineFailed) ==> r.0 == state && r.1
                is AwaitFrame
        },
        state is Reconnecting && !is_transport_failure(event) ==> {
            &&& event matches DispatchEvent::ReconnectSucceeded { subscription } ==> r.0 == (
            DispatchState::AwaitingFrame { subscription }) && r.1 is AwaitFrame
            &&& event matches DispatchEvent::ReconnectFailed { error } ==> r.0 == (
            DispatchState::Stopped { error }) && r.1 == (DispatchAction::Stop { error })
            &&& !(event is ReconnectSucceeded) && !(event is ReconnectFailed) ==> r.0
                is Reconnecting && r.1 is AttemptReconnect
        },
{
    match state {
        DispatchState::Stopped { error } => (
            DispatchState::Stopped { error },
            DispatchAction::Stop { error },
        ),
        DispatchState::AwaitingFrame { subscription } => match event {
            DispatchEvent::TextFrame { text } => match codec::parse_intent_push(text.as_str()) {
                Some((_frame_sub, intent)) => {
                    let action_intent = SwapIntent {
                        quote_id: intent.quote_id.clone(),
                        defuse_asset_identifier_in: intent.defuse_asset_identifier_in.clone(),
                        defuse_asset_identifier_out: intent.defuse_asset_identifier_out.clone(),
                        exact_amount_in: clone_opt(&intent.exact_amount_in),
                        exact_amount_out: clone_opt(&intent.exact_amount_out),
                    };
                    (
                        DispatchState::Dispatching { subscription, intent },
                        DispatchAction::RunPipeline { intent: action_intent },
                    )
                },
                None => (
                    DispatchState::AwaitingFrame { subscription },
                    DispatchAction::AwaitFrame,
                ),
            },
            DispatchEvent::ConnectionClosed | DispatchEvent::ReceiveFailed
                | DispatchEvent::SendFailed => (
                DispatchState::Reconnecting,
                DispatchAction::AttemptReconnect,
            ),
            _ => (DispatchState::AwaitingFrame { subscription }, DispatchAction::AwaitFrame),
        },
        DispatchState::Dispatching { subscription, intent } => match event {
            DispatchEvent::PipelineSucceeded { quote } => {
                let frame = codec::encode_quote_response(&quote);
                (
                    DispatchState::AwaitingFrame { subscription },
                    DispatchAction::SendQuote { frame },
                )
            },
            DispatchEvent::PipelineFailed => (
                DispatchState::AwaitingFrame { subscription },
                DispatchAction::AwaitFrame,
            ),
            DispatchEvent::ConnectionClosed | DispatchEvent::ReceiveFailed
                | DispatchEvent::SendFailed => (
                DispatchState::Reconnecting,
                DispatchAction::AttemptReconnect,
            ),
            _ => (
                DispatchState::Dispatching { subscription, intent },
                DispatchAction::AwaitFrame,
            ),
        },
        DispatchState::Reconnecting => match event {
            DispatchEvent::ReconnectSucceeded { subscription } => (
                DispatchState::AwaitingFrame { subscription },
                DispatchAction::AwaitFrame,
            ),
            DispatchEvent::ReconnectFailed { error } => (
                DispatchState::Stopped { error },
                DispatchAction::Stop { error },
            ),
            _ => (DispatchState::Reconnecting, DispatchAction::AttemptReconnect),
        },
    }
}

fn clone_opt(o: &Option<String>) -> (r: Option<String>)
    ensures
        r == *o,
{
    match o {
        Option::Some(s) => Option::Some(s.clone()),
        Option::None => Option::None,
    }
}

/// The decision of the subscription handshake on the bus's reply: the
/// subscription id exactly when the reply is a well-formed acknowledgement,
/// and a fatal `HandshakeFailed` otherwise.
pub fn handshake_response(t: &str) -> (r: Result<String, SolverError>)
    ensures
        match r {
            Ok(id) => codec::spec_parse_ack(t@) == Some(id@),
            Err(e) => e == SolverError::HandshakeFailed && codec::spec_parse_ack(t@) is None,
        },
{
    match codec::parse_subscribe_ack(t) {
        Some(id) => Ok(id),
        None => Err(SolverError::HandshakeFailed),
    }
}

} // verus!
