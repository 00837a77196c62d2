//! The intent-to-quote pipeline: validation, the computed amounts, the
//! token-diff map, the deadline, the signature payload and the assembled
//! signed quote.
//!
//! The pricing and signing collaborators are consumed as capabilities; the
//! clock, the random source and the base64 encoding stand behind trusted
//! leaves, and everything downstream of them is verified for every value
//! they may hand back.

use vstd::prelude::*;
use vstd::string::StringExecFns;

use crate::codec;
use crate::types::Intent;
use crate::types::IntentDeadline;
use crate::types::IntentMessage;
use crate::types::QuoteOutput;
use crate::types::SignaturePayload;
use crate::types::SignedIntentData;
use crate::types::SolverError;
use crate::types::SwapIntent;
use crate::types::SwapQuote;

verus! {

/// Seconds an intent message stays valid once quoted.
pub const SWAP_DEADLINE_WINDOW_SECS: u64 = 300;

/// The fixed recipient contract of every signature payload.
pub open spec fn intents_contract_text() -> Seq<char> {
    "intents.near"@
}

/// The signing-standard tag of every signed quote.
pub open spec fn signing_standard_text() -> Seq<char> {
    "nep413"@
}

/// The sub-intent kind this pipeline produces.
pub open spec fn token_diff_kind_text() -> Seq<char> {
    "token_diff"@
}

/// The external pricing collaborator: prices an asset pair and direction.
pub trait PricingService {
    /// Price an intent. The returned pair is (amount paid in, amount paid
    /// out), both string-encoded; an error is reported as text.
    fn calculate_swap(&self, intent: &SwapIntent) -> Result<(String, String), String>;
}

/// The external signing capability.
pub trait SignerCapability {
    /// Sign a payload. The returned pair is (signature, public key); an
    /// error is reported as text.
    fn sign(&self, payload: &SignaturePayload) -> Result<(String, String), String>;
}

/// Relies on `rand::random`: 32 bytes from the thread-local CSPRNG; nothing
/// is promised of the values themselves.
#[verifier::external_body]
fn random_bytes_32() -> (r: Vec<u8>)
    ensures
        r@.len() == 32,
{
    rand::random::<[u8; 32]>().to_vec()
}

/// What `base64::encode` returns for a byte sequence.
pub uninterp spec fn base64_of(bytes: Seq<u8>) -> Seq<char>;

/// Relies on `base64::encode`: standard alphabet with padding, four output
/// characters for every started group of three input bytes; the result is a
/// function of the bytes alone.
#[verifier::external_body]
fn encode_base64(bytes: &Vec<u8>) -> (r: String)
    ensures
        r@ == base64_of(bytes@),
        r@.len() == 4 * ((bytes@.len() + 2) / 3),
{
    base64::encode(bytes.as_slice())
}

/// Relies on `SystemTime::now` and `duration_since(UNIX_EPOCH)`: whole
/// seconds since the Unix epoch, 0 if the clock stands before it; such a
/// count stays far below 2^63.
#[verifier::external_body]
fn unix_now_secs() -> (r: u64)
    ensures
        r <= 0x7fff_ffff_ffff_ffff,
{
    match std::time::SystemTime::now().duration_since(std::time::UNIX_EPOCH) {
        Ok(d) => d.as_secs(),
        Err(_) => 0,
    }
}

/// A fresh base64-encoded 256-bit random nonce: the encoding of 32 freshly
/// drawn bytes, 44 characters long.
pub fn generate_nonce() -> (r: String)
    ensures
        r@.len() == 44,
        exists|b: Seq<u8>| b.len() == 32 && r@ == base64_of(b),
{
    let bytes = random_bytes_32();
    let r = encode_base64(&bytes);
    proof {
        assert(bytes@.len() == 32 && r@ == base64_of(bytes@));
    }
    r
}

fn clone_opt_string(o: &Option<String>) -> (r: Option<String>)
    ensures
        r == *o,
{
    match o {
        Option::Some(s) => Option::Some(s.clone()),
        Option::None => Option::None,
    }
}

/// The computed amounts: the supplied side echoed verbatim, the other side
/// taken from the pricing collaborator.
pub fn build_quote_output(intent: &SwapIntent, base_amount: &String, quote_amount: &String) -> (r:
    Result<QuoteOutput, SolverError>)
    ensures
        r is Ok <==> intent.has_exactly_one_amount(),
        r is Err ==> r == Err::<QuoteOutput, SolverError>(SolverError::InvalidIntent),
        r matches Ok(q) ==> {
            &&& (intent.exact_amount_in is Some ==> q.amount_in == intent.exact_amount_in
                && q.amount_out == Some(*quote_amount))
            &&& (intent.exact_amount_out is Some ==> q.amount_out == intent.exact_amount_out
                && q.amount_in == Some(*base_amount))
            &&& q.amount_in is Some
            &&& q.amount_out is Some
        },
{
    if intent.exact_amount_in.is_some() && intent.exact_amount_out.is_none() {
        Ok(
            QuoteOutput {
                amount_in: clone_opt_string(&intent.exact_amount_in),
                amount_out: Some(quote_amount.clone()),
            },
        )
    } else if intent.exact_amount_out.is_some() && intent.exact_amount_in.is_none() {
        Ok(
            QuoteOutput {
                amount_in: Some(base_amount.clone()),
                amount_out: clone_opt_string(&intent.exact_amount_out),
            },
        )
    } else {
        Err(SolverError::InvalidIntent)
    }
}

/// The token-diff map: the asset given up maps to the sign-prefixed amount,
/// the asset received to the plain amount; exactly these two entries, with
/// distinct keys whenever the two assets differ.
pub fn build_token_diff(
    asset_in: &String,
    asset_out: &String,
    amount_in: &String,
    amount_out: &String,
) -> (d: Vec<(String, String)>)
    ensures
        d@.len() == 2,
        d@[0].0 == *asset_in,
        d@[0].1@ == "-"@ + amount_in@,
        d@[1].0 == *asset_out,
        d@[1].1 == *amount_out,
        asset_in@ != asset_out@ ==> d@[0].0@ != d@[1].0@,
{
    let neg = String::from_str("-").concat(amount_in.as_str());
    let mut d: Vec<(String, String)> = Vec::new();
    d.push((asset_in.clone(), neg));
    d.push((asset_out.clone(), amount_out.clone()));
    d
}

/// The amount the signer gives up: the intent's fixed input side, or else
/// the collaborator's computed input amount.
pub open spec fn chosen_amount_in(intent: SwapIntent, base_amount: Seq<char>) -> Seq<char> {
    match intent.exact_amount_in {
        Option::Some(a) => a@,
        Option::None => base_amount,
    }
}

/// The amount the signer receives: the intent's fixed output side, or else
/// the collaborator's computed output amount.
pub open spec fn chosen_amount_out(intent: SwapIntent, quote_amount: Seq<char>) -> Seq<char> {
    match intent.exact_amount_out {
        Option::Some(a) => a@,
        Option::None => quote_amount,
    }
}

/// The exact text that is signed for one swap: one `token_diff` sub-intent
/// whose map sends the asset given up to `-amount_in` and the asset
/// received to `amount_out`.
pub open spec fn signed_message_text(
    signer_id: Seq<char>,
    deadline_ts: u64,
    asset_in: Seq<char>,
    amount_in: Seq<char>,
    asset_out: Seq<char>,
    amount_out: Seq<char>,
) -> Seq<char> {
    "{\"signer_id\":"@ + codec::json_string(signer_id) + ",\"deadline\":{\"timestamp\":"@
        + codec::dec_text(deadline_ts as int) + "},\"intents\":["@ + "{\"intent\":"@
        + codec::json_string(token_diff_kind_text()) + ",\"diff\":"@ + "{"@ + codec::json_string(
        asset_in,
    ) + ":"@ + codec::json_string("-"@ + amount_in) + ","@ + codec::json_string(asset_out) + ":"@
        + codec::json_string(amount_out) + "}"@ + "}"@ + "]}"@
}

/// The signature payload for `intent`: the canonical message text under
/// the given absolute deadline, the nonce, the fixed recipient and no
/// callback.
#[verifier::rlimit(100)]
pub fn build_intent_payload(
    intent: &SwapIntent,
    signer_id: &String,
    base_amount: &String,
    quote_amount: &String,
    deadline_ts: u64,
    nonce: String,
) -> (r: Result<SignaturePayload, SolverError>)
    ensures
        r is Ok <==> intent.has_exactly_one_amount(),
        r is Err ==> r == Err::<SignaturePayload, SolverError>(SolverError::InvalidIntent),
        r matches Ok(p) ==> {
            &&& p.message@ == signed_message_text(
                signer_id@,
                deadline_ts,
                intent.defuse_asset_identifier_in@,
                chosen_amount_in(*intent, base_amount@),
                intent.defuse_asset_identifier_out@,
                chosen_amount_out(*intent, quote_amount@),
            )
            &&& p.nonce == nonce
            &&& p.recipient@ == intents_contract_text()
            &&& p.callback_url is None
        },
{
    if !(intent.exact_amount_in.is_some() && intent.exact_amount_out.is_none()
        || intent.exact_amount_out.is_some() && intent.exact_amount_in.is_none()) {
        return Err(SolverError::InvalidIntent);
    }
    let from_amount = match &intent.exact_amount_in {
        Option::Some(a) => a.clone(),
        Option::None => base_amount.clone(),
    };
    let to_amount = match &intent.exact_amount_out {
        Option::Some(a) => a.clone(),
        Option::None => quote_amount.clone(),
    };
    let diff = build_token_diff(
        &intent.defuse_asset_identifier_in,
        &intent.defuse_asset_identifier_out,
        &from_amount,
        &to_amount,
    );
    let deadline = IntentDeadline { timestamp: deadline_ts };
    let ghost diff_view = diff@;
    let mut intents_vec: Vec<Intent> = Vec::new();
    intents_vec.push(Intent { intent: String::from_str("token_diff"), diff });
    let message_value = IntentMessage { signer_id: signer_id.clone(), deadline, intents: intents_vec };
    let message = codec::encode_intent_message(&message_value);
    proof {
        let a_in = intent.defuse_asset_identifier_in@;
        let a_out = intent.defuse_asset_identifier_out@;
        let m_in = chosen_amount_in(*intent, base_amount@);
        let m_out = chosen_amount_out(*intent, quote_amount@);
        reveal_with_fuel(codec::diff_body_text, 3);
        assert(codec::diff_text(diff_view) =~= "{"@ + codec::json_string(a_in) + ":"@
            + codec::json_string("-"@ + m_in) + ","@ + codec::json_string(a_out) + ":"@
            + codec::json_string(m_out) + "}"@);
        let one = message_value.intents@[0];
        reveal_with_fuel(codec::intents_body_text, 2);
        assert(codec::intents_body_text(message_value.intents@, 1) == codec::intent_text(one));
        assert(codec::intent_text(one) == "{\"intent\":"@ + codec::json_string(one.intent@)
            + ",\"diff\":"@ + codec::diff_text(diff_view) + "}"@);
        assert(message@ =~= signed_message_text(signer_id@, deadline_ts, a_in, m_in, a_out, m_out));
    }
    Ok(
        SignaturePayload {
            message,
            nonce,
            recipient: String::from_str("intents.near"),
            callback_url: None,
        },
    )
}

/// Assemble the outbound quote for `intent` from the collaborator amounts,
/// the absolute deadline, a fresh nonce and the signer's signature and key.
///
/// Everything the result holds is pinned to the arguments: the correlation
/// id is the intent's, the supplied amount side is echoed verbatim, the
/// token-diff message is the canonical text, and the payload carries the
/// given nonce, the fixed recipient and no callback.
pub fn build_quote(
    intent: &SwapIntent,
    signer_id: &String,
    base_amount: &String,
    quote_amount: &String,
    deadline_ts: u64,
    nonce: String,
    signature: String,
    public_key: String,
) -> (r: Result<SwapQuote, SolverError>)
    ensures
        r is Ok <==> intent.has_exactly_one_amount(),
        r is Err ==> r == Err::<SwapQuote, SolverError>(SolverError::InvalidIntent),
        r matches Ok(q) ==> {
            &&& q.quote_id == intent.quote_id
            &&& (intent.exact_amount_in is Some ==> q.quote_output.amount_in
                == intent.exact_amount_in && q.quote_output.amount_out == Some(*quote_amount))
            &&& (intent.exact_amount_out is Some ==> q.quote_output.amount_out
                == intent.exact_amount_out && q.quote_output.amount_in == Some(*base_amount))
            &&& q.quote_output.amount_in is Some
            &&& q.quote_output.amount_out is Some
            &&& q.signed_data.standard@ == signing_standard_text()
            &&& q.signed_data.payload.message@ == signed_message_text(
                signer_id@,
                deadline_ts,
                intent.defuse_asset_identifier_in@,
                chosen_amount_in(*intent, base_amount@),
                intent.defuse_asset_identifier_out@,
                chosen_amount_out(*intent, quote_amount@),
            )
            &&& q.signed_data.payload.nonce == nonce
            &&& q.signed_data.payload.recipient@ == intents_contract_text()
            &&& q.signed_data.payload.callback_url is None
            &&& q.signed_data.signature == signature
            &&& q.signed_data.public_key == public_key
        },
{
    let quote_output = match build_quote_output(intent, base_amount, quote_amount) {
        Ok(q) => q,
        Err(e) => {
            return Err(e);
        },
    };
    let payload = match build_intent_payload(
        intent,
        signer_id,
        base_amount,
        quote_amount,
        deadline_ts,
        nonce,
    ) {
        Ok(p) => p,
        Err(e) => {
            return Err(e);
        },
    };
    let signed_data = SignedIntentData {
        standard: String::from_str("nep413"),
        payload,
        signature,
        public_key,
    };
    Ok(SwapQuote { quote_id: intent.quote_id.clone(), quote_output, signed_data })
}

/// A solver bound to one signer identity, one bus and its two
/// collaborators.
pub struct NearIntentsSolver<P: PricingService, S: SignerCapability> {
    /// Account identity written into every signed message.
    pub account_id: String,
    /// URL of the solver bus, used by the transport layer.
    pub solver_bus_url: String,
    /// Pricing collaborator.
    pub runesdex_client: P,
    /// Signing capability.
    pub signer: S,
}

impl<P: PricingService, S: SignerCapability> NearIntentsSolver<P, S> {
    /// A solver over the given identity, bus URL and collaborators.
    pub fn new(account_id: String, solver_bus_url: String, runesdex_client: P, signer: S) -> (r:
        Self)
        ensures
            r.account_id == account_id,
            r.solver_bus_url == solver_bus_url,
            r.runesdex_client == runesdex_client,
            r.signer == signer,
    {
        NearIntentsSolver { account_id, solver_bus_url, runesdex_client, signer }
    }

    /// Process one swap intent into a signed quote.
    ///
    /// The intent is validated before any collaborator is consulted:
    /// `InvalidIntent` comes back exactly when not exactly one amount side
    /// is fixed. A pricing or signing failure is passed on as
    /// `PricingFailed` or `SigningFailed`. Whatever the collaborators, the
    /// clock and the random source hand back, a produced quote echoes the
    /// intent's correlation id and its fixed amount side, carries the fixed
    /// standard tag and recipient, no callback, and a full-length nonce.
    pub fn process_intent(&self, intent: &SwapIntent) -> (r: Result<SwapQuote, SolverError>)
        ensures
            r == Err::<SwapQuote, SolverError>(SolverError::InvalidIntent)
                <==> !intent.has_exactly_one_amount(),
            r is Err ==> (r == Err::<SwapQuote, SolverError>(SolverError::InvalidIntent) || r
                == Err::<SwapQuote, SolverError>(SolverError::PricingFailed) || r == Err::<
                SwapQuote,
                SolverError,
            >(SolverError::SigningFailed)),
            r matches Ok(q) ==> {
                &&& intent.has_exactly_one_amount()
                &&& q.quote_id == intent.quote_id
                &&& (intent.exact_amount_in is Some ==> q.quote_output.amount_in
                    == intent.exact_amount_in)
                &&& (intent.exact_amount_out is Some ==> q.quote_output.amount_out
                    == intent.exact_amount_out)
                &&& q.quote_output.amount_in is Some
                &&& q.quote_output.amount_out is Some
                &&& q.signed_data.standard@ == signing_standard_text()
                &&& q.signed_data.payload.recipient@ == intents_contract_text()
                &&& q.signed_data.payload.callback_url is None
                &&& q.signed_data.payload.nonce@.len() == 44
                &&& exists|b: Seq<u8>| b.len() == 32 && q.signed_data.payload.nonce@ == base64_of(
                    b,
                )
                &&& exists|deadline_ts: u64, base: Seq<char>, quoted: Seq<char>|
                    q.signed_data.payload.message@ == #[trigger] signed_message_text(
                        self.account_id@,
                        deadline_ts,
                        intent.defuse_asset_identifier_in@,
                        chosen_amount_in(*intent, base),
                        intent.defuse_asset_identifier_out@,
                        chosen_amount_out(*intent, quoted),
                    )
            },
    {
        if !(intent.exact_amount_in.is_some() && intent.exact_amount_out.is_none()
            || intent.exact_amount_out.is_some() && intent.exact_amount_in.is_none()) {
            return Err(SolverError::InvalidIntent);
        }
        let (base_amount, quote_amount) = match self.runesdex_client.calculate_swap(intent) {
            Ok(p) => p,
            Err(_) => {
                return Err(SolverError::PricingFailed);
            },
        };
        let now = unix_now_secs();
        let deadline_ts = now + SWAP_DEADLINE_WINDOW_SECS;
        let nonce = generate_nonce();
        let quote_output = match build_quote_output(intent, &base_amount, &quote_amount) {
            Ok(q) => q,
            Err(e) => {
                return Err(e);
            },
        };
        let payload = match build_intent_payload(
            intent,
            &self.account_id,
            &base_amount,
            &quote_amount,
            deadline_ts,
            nonce,
        ) {
            Ok(p) => p,
            Err(e) => {
                return Err(e);
            },
        };
        let (signature, public_key) = match self.signer.sign(&payload) {
            Ok(p) => p,
            Err(_) => {
                return Err(SolverError::SigningFailed);
            },
        };
        proof {
            assert(payload.message@ == signed_message_text(
                self.account_id@,
                deadline_ts,
                intent.defuse_asset_identifier_in@,
                chosen_amount_in(*intent, base_amount@),
                intent.defuse_asset_identifier_out@,
                chosen_amount_out(*intent, quote_amount@),
            ));
        }
        let signed_data = SignedIntentData {
            standard: String::from_str("nep413"),
            payload,
            signature,
            public_key,
        };
        Ok(SwapQuote { quote_id: intent.quote_id.clone(), quote_output, signed_data })
    }
}

} // verus!
