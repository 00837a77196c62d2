//! Data shapes of the solver-bus protocol and the pipeline's error taxonomy.

use vstd::prelude::*;

verus! {

/// Inbound request describing a desired token exchange. Exactly one of the
/// two amount fields is expected to be present; `quote_id` is the opaque
/// correlation token echoed in the outbound quote.
#[derive(Debug)]
pub struct SwapIntent {
    pub quote_id: String,
    pub defuse_asset_identifier_in: String,
    pub defuse_asset_identifier_out: String,
    pub exact_amount_in: Option<String>,
    pub exact_amount_out: Option<String>,
}

impl SwapIntent {
    /// An intent is priceable only when exactly one side's amount is fixed.
    pub open spec fn has_exactly_one_amount(&self) -> bool {
        self.exact_amount_in is Some <==> self.exact_amount_out is None
    }
}

/// Computed result pair: one side was supplied by the intent, the other side
/// was derived by the pricing collaborator.
#[derive(Debug)]
pub struct QuoteOutput {
    pub amount_in: Option<String>,
    pub amount_out: Option<String>,
}

/// Absolute expiry of a proposed intent message, in seconds since the epoch.
#[derive(Debug)]
pub struct IntentDeadline {
    pub timestamp: u64,
}

/// One sub-intent of an intent message: a kind tag and a token-diff map,
/// held as a key/value list. The pipeline writes one entry per asset, so
/// the keys are distinct whenever the two assets of a swap differ.
#[derive(Debug)]
pub struct Intent {
    pub intent: String,
    pub diff: Vec<(String, String)>,
}

/// The logical payload to be signed: signer identity, deadline, sub-intents.
#[derive(Debug)]
pub struct IntentMessage {
    pub signer_id: String,
    pub deadline: IntentDeadline,
    pub intents: Vec<Intent>,
}

/// The exact text to be signed together with the replay-protection nonce,
/// the recipient contract and an optional callback.
#[derive(Debug)]
pub struct SignaturePayload {
    pub message: String,
    pub nonce: String,
    pub recipient: String,
    pub callback_url: Option<String>,
}

/// Signing-standard tag, payload, signature and the signer's public key.
#[derive(Debug)]
pub struct SignedIntentData {
    pub standard: String,
    pub payload: SignaturePayload,
    pub signature: String,
    pub public_key: String,
}

/// Outbound response: correlation id, computed amounts, signed data.
#[derive(Debug)]
pub struct SwapQuote {
    pub quote_id: String,
    pub quote_output: QuoteOutput,
    pub signed_data: SignedIntentData,
}

/// Error taxonomy of the client.
///
/// `InvalidIntent`, `PricingFailed` and `SigningFailed` are per-intent and
/// never fatal; `TransportError` triggers reconnection; `ProtocolError`
/// marks a frame that was dropped; `HandshakeFailed` is fatal.
#[derive(Debug, PartialEq, Eq, Structural, Clone, Copy)]
pub enum SolverError {
    TransportError,
    ProtocolError,
    InvalidIntent,
    PricingFailed,
    SigningFailed,
    HandshakeFailed,
}

} // verus!
