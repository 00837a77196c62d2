use runesdex_solver::pipeline::build_quote;
use runesdex_solver::pipeline::build_quote_output;
use runesdex_solver::pipeline::build_token_diff;
use runesdex_solver::pipeline::generate_nonce;
use runesdex_solver::pipeline::NearIntentsSolver;
use runesdex_solver::pipeline::PricingService;
use runesdex_solver::pipeline::SignerCapability;
use runesdex_solver::types::SignaturePayload;
use runesdex_solver::types::SolverError;
use runesdex_solver::types::SwapIntent;

struct FixedPricing(String, String);

impl PricingService for FixedPricing {
    fn calculate_swap(&self, _intent: &SwapIntent) -> Result<(String, String), String> {
        Ok((self.0.clone(), self.1.clone()))
    }
}

struct FailingPricing;

impl PricingService for FailingPricing {
    fn calculate_swap(&self, _intent: &SwapIntent) -> Result<(String, String), String> {
        Err("pricing unavailable".to_string())
    }
}

struct StubSigner;

impl SignerCapability for StubSigner {
    fn sign(&self, _payload: &SignaturePayload) -> Result<(String, String), String> {
        Ok(("signed_payload".to_string(), "public_key".to_string()))
    }
}

struct FailingSigner;

impl SignerCapability for FailingSigner {
    fn sign(&self, _payload: &SignaturePayload) -> Result<(String, String), String> {
        Err("no key".to_string())
    }
}

fn intent_with_input() -> SwapIntent {
    SwapIntent {
        quote_id: "q1".to_string(),
        defuse_asset_identifier_in: "BTC.rune".to_string(),
        defuse_asset_identifier_out: "USDC.near".to_string(),
        exact_amount_in: Some("100".to_string()),
        exact_amount_out: None,
    }
}

fn solver<P: PricingService, S: SignerCapability>(p: P, s: S) -> NearIntentsSolver<P, S> {
    NearIntentsSolver::new(
        "solver.near".to_string(),
        "wss://bus.example".to_string(),
        p,
        s,
    )
}

#[test]
fn quote_echoes_fixed_input_side() {
    let sv = solver(FixedPricing("100".to_string(), "95".to_string()), StubSigner);
    let quote = sv.process_intent(&intent_with_input()).unwrap();
    assert_eq!(quote.quote_id, "q1");
    assert_eq!(quote.quote_output.amount_in.as_deref(), Some("100"));
    assert_eq!(quote.quote_output.amount_out.as_deref(), Some("95"));
}

#[test]
fn quote_computes_input_side() {
    let mut intent = intent_with_input();
    intent.exact_amount_in = None;
    intent.exact_amount_out = Some("95".to_string());
    let sv = solver(FixedPricing("100".to_string(), "95".to_string()), StubSigner);
    let quote = sv.process_intent(&intent).unwrap();
    assert_eq!(quote.quote_output.amount_in.as_deref(), Some("100"));
    assert_eq!(quote.quote_output.amount_out.as_deref(), Some("95"));
}

#[test]
fn both_amounts_rejected_before_pricing() {
    let mut intent = intent_with_input();
    intent.exact_amount_out = Some("95".to_string());
    let sv = solver(FailingPricing, StubSigner);
    assert_eq!(
        sv.process_intent(&intent).unwrap_err(),
        SolverError::InvalidIntent
    );
}

#[test]
fn neither_amount_rejected_before_pricing() {
    let mut intent = intent_with_input();
    intent.exact_amount_in = None;
    let sv = solver(FailingPricing, StubSigner);
    assert_eq!(
        sv.process_intent(&intent).unwrap_err(),
        SolverError::InvalidIntent
    );
}

#[test]
fn pricing_failure_is_reported() {
    let sv = solver(FailingPricing, StubSigner);
    assert_eq!(
        sv.process_intent(&intent_with_input()).unwrap_err(),
        SolverError::PricingFailed
    );
}

#[test]
fn signing_failure_is_reported() {
    let sv = solver(FixedPricing("100".to_string(), "95".to_string()), FailingSigner);
    assert_eq!(
        sv.process_intent(&intent_with_input()).unwrap_err(),
        SolverError::SigningFailed
    );
}

#[test]
fn quote_output_requires_exactly_one_amount() {
    let mut intent = intent_with_input();
    intent.exact_amount_out = Some("95".to_string());
    let r = build_quote_output(&intent, &"100".to_string(), &"95".to_string());
    assert_eq!(r.unwrap_err(), SolverError::InvalidIntent);
}

#[test]
fn token_diff_has_exactly_two_signed_entries() {
    let d = build_token_diff(
        &"BTC.rune".to_string(),
        &"USDC.near".to_string(),
        &"100".to_string(),
        &"95".to_string(),
    );
    assert_eq!(d.len(), 2);
    assert_eq!(d[0], ("BTC.rune".to_string(), "-100".to_string()));
    assert_eq!(d[1], ("USDC.near".to_string(), "95".to_string()));
}

#[test]
fn nonce_is_full_length_and_unique_over_many() {
    let mut seen = std::collections::HashSet::new();
    for _ in 0..1000 {
        let nonce = generate_nonce();
        assert_eq!(nonce.len(), 44);
        assert!(seen.insert(nonce), "nonce repeated");
    }
}

#[test]
fn end_to_end_quote_for_known_intent() {
    let quote = build_quote(
        &intent_with_input(),
        &"solver.near".to_string(),
        &"100".to_string(),
        &"95".to_string(),
        1300,
        "n0".to_string(),
        "sig".to_string(),
        "pk".to_string(),
    )
    .unwrap();
    assert_eq!(quote.quote_id, "q1");
    assert_eq!(quote.quote_output.amount_in.as_deref(), Some("100"));
    assert_eq!(quote.quote_output.amount_out.as_deref(), Some("95"));
    assert_eq!(quote.signed_data.standard, "nep413");
    assert_eq!(quote.signed_data.payload.recipient, "intents.near");
    assert_eq!(quote.signed_data.payload.nonce, "n0");
    assert_eq!(quote.signed_data.payload.callback_url, None);
    assert_eq!(quote.signed_data.signature, "sig");
    assert_eq!(quote.signed_data.public_key, "pk");
    assert_eq!(
        quote.signed_data.payload.message,
        "{\"signer_id\":\"solver.near\",\"deadline\":{\"timestamp\":1300},\"intents\":[{\"intent\":\"token_diff\",\"diff\":{\"BTC.rune\":\"-100\",\"USDC.near\":\"95\"}}]}"
    );
}
